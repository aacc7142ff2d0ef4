//! Blocks: what a cell of the world is made of, and how it is drawn.
use vstd::prelude::*;
use crate::colour::Colour;

verus! {

/// A material. The renderer varies each cell's colour upwards from `colour`:
/// by up to `brightness_variation` on all channels together, and by up to
/// `colour_variation` on each channel by itself.
#[derive(Clone, Copy, Debug, PartialEq, Eq, Structural)]
pub struct Block {
    pub colour: Colour,
    pub brightness_variation: u8,
    pub colour_variation: u8,
    pub solid: bool,
}

/// Half of the two variations together: by this much the stored colour lies
/// below the middle colour of the block.
pub open spec fn variation_offset(brightness_variation: u8, colour_variation: u8) -> int {
    (brightness_variation as int + colour_variation as int) / 2
}

/// Whether a block of this middle colour and these variations can be made:
/// the variations together fit in a byte, and no channel lies below the
/// offset.
pub open spec fn block_fits(colour: Colour, brightness_variation: u8, colour_variation: u8) -> bool {
    &&& brightness_variation as int + colour_variation as int <= 255
    &&& colour.r as int >= variation_offset(brightness_variation, colour_variation)
    &&& colour.g as int >= variation_offset(brightness_variation, colour_variation)
    &&& colour.b as int >= variation_offset(brightness_variation, colour_variation)
}

/// Whether every colour that the block can be drawn in fits: no channel, with
/// both variations added in full, goes beyond a byte.
pub open spec fn can_shade(block: Block) -> bool {
    &&& block.colour.r as int + block.brightness_variation as int + block.colour_variation as int
        <= 255
    &&& block.colour.g as int + block.brightness_variation as int + block.colour_variation as int
        <= 255
    &&& block.colour.b as int + block.brightness_variation as int + block.colour_variation as int
        <= 255
}

/// The colour of a block in a cell with the entropy `noise`. The entropy is
/// read as a number in mixed base: its lowest digit, in base
/// `brightness_variation + 1`, is added to all three channels; the next three
/// digits, in base `colour_variation + 1`, are added to red, green and blue.
pub open spec fn shade_spec(block: Block, noise: int) -> Colour {
    let bright = block.brightness_variation as int + 1;
    let vary = block.colour_variation as int + 1;
    let extra = noise % bright;
    let rest = noise / bright;
    Colour {
        a: block.colour.a,
        r: (block.colour.r as int + extra + rest % vary) as u8,
        g: (block.colour.g as int + extra + (rest / vary) % vary) as u8,
        b: (block.colour.b as int + extra + ((rest / vary) / vary) % vary) as u8,
    }
}

/// Takes the lowest digit of `value` in base `max + 1` off it: the digit is
/// given back, and `value` is left with the digits above it.
pub fn take_value(value: &mut u64, max: u8) -> (taken: u8)
    ensures
        taken as int == *old(value) as int % (max as int + 1),
        *final(value) as int == *old(value) as int / (max as int + 1),
        taken <= max,
{
    let base: u64 = max as u64 + 1;
    let taken: u64 = *value % base;
    *value = *value / base;
    taken as u8
}

impl Block {
    /// The colour of the block in a cell with the entropy `noise`.
    pub fn shade(&self, noise: u64) -> (colour: Colour)
        requires
            can_shade(*self),
        ensures
            colour == shade_spec(*self, noise as int),
    {
        let mut rest = noise;
        let extra = take_value(&mut rest, self.brightness_variation);
        let red = take_value(&mut rest, self.colour_variation);
        let green = take_value(&mut rest, self.colour_variation);
        let blue = take_value(&mut rest, self.colour_variation);
        Colour::rgba(
            self.colour.r + extra + red,
            self.colour.g + extra + green,
            self.colour.b + extra + blue,
            self.colour.a,
        )
    }

    /// The block whose colours vary around `colour`: the stored colour is
    /// `colour` with each of red, green and blue lowered by the offset.
    pub fn new(colour: Colour, brightness_variation: u8, colour_variation: u8, solid: bool) -> (block: Block)
        requires
            block_fits(colour, brightness_variation, colour_variation),
        ensures
            block.colour.r as int == colour.r as int - variation_offset(
                brightness_variation,
                colour_variation,
            ),
            block.colour.g as int == colour.g as int - variation_offset(
                brightness_variation,
                colour_variation,
            ),
            block.colour.b as int == colour.b as int - variation_offset(
                brightness_variation,
                colour_variation,
            ),
            block.colour.a == colour.a,
            block.brightness_variation == brightness_variation,
            block.colour_variation == colour_variation,
            block.solid == solid,
    {
        let offset: u8 = (brightness_variation + colour_variation) / 2;
        Block {
            colour: Colour::rgba(colour.r - offset, colour.g - offset, colour.b - offset, colour.a),
            brightness_variation,
            colour_variation,
            solid,
        }
    }

    /// A solid block.
    pub fn fg(colour: Colour, brightness_variation: u8, colour_variation: u8) -> (block: Block)
        requires
            block_fits(colour, brightness_variation, colour_variation),
        ensures
            block.colour.r as int == colour.r as int - variation_offset(
                brightness_variation,
                colour_variation,
            ),
            block.colour.g as int == colour.g as int - variation_offset(
                brightness_variation,
                colour_variation,
            ),
            block.colour.b as int == colour.b as int - variation_offset(
                brightness_variation,
                colour_variation,
            ),
            block.colour.a == colour.a,
            block.brightness_variation == brightness_variation,
            block.colour_variation == colour_variation,
            block.solid,
    {
        Block::new(colour, brightness_variation, colour_variation, true)
    }

    /// A block of the background.
    pub fn bg(colour: Colour, brightness_variation: u8, colour_variation: u8) -> (block: Block)
        requires
            block_fits(colour, brightness_variation, colour_variation),
        ensures
            block.colour.r as int == colour.r as int - variation_offset(
                brightness_variation,
                colour_variation,
            ),
            block.colour.g as int == colour.g as int - variation_offset(
                brightness_variation,
                colour_variation,
            ),
            block.colour.b as int == colour.b as int - variation_offset(
                brightness_variation,
                colour_variation,
            ),
            block.colour.a == colour.a,
            block.brightness_variation == brightness_variation,
            block.colour_variation == colour_variation,
            !block.solid,
    {
        Block::new(colour, brightness_variation, colour_variation, false)
    }
}

} // verus!
