//! From a subcommand and its arguments to the one operation to perform.
//!
//! The arguments are the words that follow the subcommand.  The file names
//! come first: input and output for an operation that edits an image, the
//! output alone for one that makes an image.  The numbers follow.

use vstd::prelude::*;
use crate::number::{number_i32, number_u32, number_u8, parse_i32, parse_u32, parse_u8};
use crate::pixel::Color;

verus! {

/// One operation, with the numbers it needs.
#[derive(Clone, Copy, Debug, PartialEq, Eq, Structural)]
pub enum Operation {
    /// Blur the image.  The amount is the third argument; it is not a whole
    /// number and is not read here.
    Blur,
    /// Add `amount` to every colour channel.
    Brighten { amount: i32 },
    /// Keep the `width` by `height` window at `(x, y)`.
    Crop { x: u32, y: u32, width: u32, height: u32 },
    /// Turn the image clockwise by so many degrees.
    Rotate { degrees: u32 },
    /// Invert every colour channel.
    Invert,
    /// Replace every colour by the grey of its luminance.
    Grayscale,
    /// Make a canvas of one colour.
    Generate { color: Color },
    /// Make the fractal canvas.
    Fractal,
}

/// Why no operation was chosen.
#[derive(Clone, Copy, Debug, PartialEq, Eq, Structural)]
pub enum CommandError {
    /// The subcommand is not known, or it has too few or too many
    /// arguments.
    Usage,
    /// The argument at `position`, counted from 0, is not a number of the
    /// kind that the subcommand takes there.
    NotANumber { position: usize },
}

/// The arguments as texts.
pub open spec fn texts(args: Seq<String>) -> Seq<Seq<char>> {
    Seq::new(args.len(), |i: int| args[i]@)
}

/// The operation that `brighten` and its arguments ask for.
pub open spec fn brighten_of(args: Seq<Seq<char>>) -> Result<Operation, CommandError> {
    if args.len() != 3 {
        Err(CommandError::Usage)
    } else {
        match number_i32(args[2]) {
            Some(amount) => Ok(Operation::Brighten { amount }),
            None => Err(CommandError::NotANumber { position: 2 }),
        }
    }
}

/// The operation that `crop` and its arguments ask for.  Of several
/// arguments that are no numbers, the leftmost is reported.
pub open spec fn crop_of(args: Seq<Seq<char>>) -> Result<Operation, CommandError> {
    if args.len() != 6 {
        Err(CommandError::Usage)
    } else if number_u32(args[2]).is_none() {
        Err(CommandError::NotANumber { position: 2 })
    } else if number_u32(args[3]).is_none() {
        Err(CommandError::NotANumber { position: 3 })
    } else if number_u32(args[4]).is_none() {
        Err(CommandError::NotANumber { position: 4 })
    } else if number_u32(args[5]).is_none() {
        Err(CommandError::NotANumber { position: 5 })
    } else {
        Ok(
            Operation::Crop {
                x: number_u32(args[2]).unwrap(),
                y: number_u32(args[3]).unwrap(),
                width: number_u32(args[4]).unwrap(),
                height: number_u32(args[5]).unwrap(),
            },
        )
    }
}

/// The operation that `rotate` and its arguments ask for.
pub open spec fn rotate_of(args: Seq<Seq<char>>) -> Result<Operation, CommandError> {
    if args.len() != 3 {
        Err(CommandError::Usage)
    } else {
        match number_u32(args[2]) {
            Some(degrees) => Ok(Operation::Rotate { degrees }),
            None => Err(CommandError::NotANumber { position: 2 }),
        }
    }
}

/// The operation that `generate` and its arguments ask for.  Of several
/// arguments that are no numbers, the leftmost is reported.
pub open spec fn generate_of(args: Seq<Seq<char>>) -> Result<Operation, CommandError> {
    if args.len() != 4 {
        Err(CommandError::Usage)
    } else if number_u8(args[1]).is_none() {
        Err(CommandError::NotANumber { position: 1 })
    } else if number_u8(args[2]).is_none() {
        Err(CommandError::NotANumber { position: 2 })
    } else if number_u8(args[3]).is_none() {
        Err(CommandError::NotANumber { position: 3 })
    } else {
        Ok(
            Operation::Generate {
                color: Color {
                    r: number_u8(args[1]).unwrap(),
                    g: number_u8(args[2]).unwrap(),
                    b: number_u8(args[3]).unwrap(),
                },
            },
        )
    }
}

/// An operation without numbers, which takes exactly `count` arguments.
pub open spec fn plain_of(op: Operation, args: Seq<Seq<char>>, count: nat) -> Result<
    Operation,
    CommandError,
> {
    if args.len() == count {
        Ok(op)
    } else {
        Err(CommandError::Usage)
    }
}

/// The operation that a subcommand and its arguments ask for.
pub open spec fn operation_of(name: Seq<char>, args: Seq<Seq<char>>) -> Result<
    Operation,
    CommandError,
> {
    if name == "blur"@ {
        plain_of(Operation::Blur, args, 3)
    } else if name == "brighten"@ {
        brighten_of(args)
    } else if name == "crop"@ {
        crop_of(args)
    } else if name == "rotate"@ {
        rotate_of(args)
    } else if name == "invert"@ {
        plain_of(Operation::Invert, args, 2)
    } else if name == "grayscale"@ {
        plain_of(Operation::Grayscale, args, 2)
    } else if name == "generate"@ {
        generate_of(args)
    } else if name == "fractal"@ {
        plain_of(Operation::Fractal, args, 1)
    } else {
        Err(CommandError::Usage)
    }
}

impl Operation {
    /// The operation edits an image that it reads: its first argument names
    /// the input and its second the output.  Otherwise it makes an image,
    /// and its first argument names the output.
    pub open spec fn edits(self) -> bool {
        !(self is Generate || self is Fractal)
    }

    /// Whether the operation edits an image that it reads.
    pub fn reads_input(&self) -> (r: bool)
        ensures
            r == self.edits(),
    {
        match self {
            Operation::Generate { .. } => false,
            Operation::Fractal => false,
            _ => true,
        }
    }
}

/// Whether two texts are the same.
fn same_text(a: &str, b: &str) -> (r: bool)
    ensures
        r == (a@ == b@),
{
    a.to_owned() == b.to_owned()
}

/// An operation without numbers.
fn parse_plain(op: Operation, args: &Vec<String>, count: usize) -> (r: Result<
    Operation,
    CommandError,
>)
    ensures
        r == plain_of(op, texts(args@), count as nat),
{
    if args.len() == count {
        Ok(op)
    } else {
        Err(CommandError::Usage)
    }
}

/// The number at `position`, or the error that names the position.
fn parse_u32_at(args: &Vec<String>, position: usize) -> (r: Result<u32, CommandError>)
    requires
        position < args@.len(),
    ensures
        r == match number_u32(texts(args@)[position as int]) {
            Some(n) => Ok::<u32, CommandError>(n),
            None => Err(CommandError::NotANumber { position }),
        },
{
    match parse_u32(args[position].as_str()) {
        Some(n) => Ok(n),
        None => Err(CommandError::NotANumber { position }),
    }
}

/// The channel at `position`, or the error that names the position.
fn parse_u8_at(args: &Vec<String>, position: usize) -> (r: Result<u8, CommandError>)
    requires
        position < args@.len(),
    ensures
        r == match number_u8(texts(args@)[position as int]) {
            Some(n) => Ok::<u8, CommandError>(n),
            None => Err(CommandError::NotANumber { position }),
        },
{
    match parse_u8(args[position].as_str()) {
        Some(n) => Ok(n),
        None => Err(CommandError::NotANumber { position }),
    }
}

fn parse_brighten(args: &Vec<String>) -> (r: Result<Operation, CommandError>)
    ensures
        r == brighten_of(texts(args@)),
{
    if args.len() != 3 {
        return Err(CommandError::Usage);
    }
    match parse_i32(args[2].as_str()) {
        Some(amount) => Ok(Operation::Brighten { amount }),
        None => Err(CommandError::NotANumber { position: 2 }),
    }
}

fn parse_crop(args: &Vec<String>) -> (r: Result<Operation, CommandError>)
    ensures
        r == crop_of(texts(args@)),
{
    if args.len() != 6 {
        return Err(CommandError::Usage);
    }
    let x = match parse_u32_at(args, 2) {
        Ok(n) => n,
        Err(e) => { return Err(e); },
    };
    let y = match parse_u32_at(args, 3) {
        Ok(n) => n,
        Err(e) => { return Err(e); },
    };
    let width = match parse_u32_at(args, 4) {
        Ok(n) => n,
        Err(e) => { return Err(e); },
    };
    let height = match parse_u32_at(args, 5) {
        Ok(n) => n,
        Err(e) => { return Err(e); },
    };
    Ok(Operation::Crop { x, y, width, height })
}

fn parse_rotate(args: &Vec<String>) -> (r: Result<Operation, CommandError>)
    ensures
        r == rotate_of(texts(args@)),
{
    if args.len() != 3 {
        return Err(CommandError::Usage);
    }
    match parse_u32_at(args, 2) {
        Ok(degrees) => Ok(Operation::Rotate { degrees }),
        Err(e) => Err(e),
    }
}

fn parse_generate(args: &Vec<String>) -> (r: Result<Operation, CommandError>)
    ensures
        r == generate_of(texts(args@)),
{
    if args.len() != 4 {
        return Err(CommandError::Usage);
    }
    let r = match parse_u8_at(args, 1) {
        Ok(n) => n,
        Err(e) => { return Err(e); },
    };
    let g = match parse_u8_at(args, 2) {
        Ok(n) => n,
        Err(e) => { return Err(e); },
    };
    let b = match parse_u8_at(args, 3) {
        Ok(n) => n,
        Err(e) => { return Err(e); },
    };
    Ok(Operation::Generate { color: Color { r, g, b } })
}

/// Chooses the operation that a subcommand and its arguments ask for.
///
/// | subcommand | arguments |
/// |---|---|
/// | `blur` | input, output, amount |
/// | `brighten` | input, output, amount (`i32`) |
/// | `crop` | input, output, x, y, width, height (`u32` each) |
/// | `rotate` | input, output, amount (`u32`) |
/// | `invert` | input, output |
/// | `grayscale` | input, output |
/// | `generate` | output, red, green, blue (`u8` each) |
/// | `fractal` | output |
pub fn parse_operation(name: &str, args: &Vec<String>) -> (r: Result<Operation, CommandError>)
    ensures
        r == operation_of(name@, texts(args@)),
{
    if same_text(name, "blur") {
        parse_plain(Operation::Blur, args, 3)
    } else if same_text(name, "brighten") {
        parse_brighten(args)
    } else if same_text(name, "crop") {
        parse_crop(args)
    } else if same_text(name, "rotate") {
        parse_rotate(args)
    } else if same_text(name, "invert") {
        parse_plain(Operation::Invert, args, 2)
    } else if same_text(name, "grayscale") {
        parse_plain(Operation::Grayscale, args, 2)
    } else if same_text(name, "generate") {
        parse_generate(args)
    } else if same_text(name, "fractal") {
        parse_plain(Operation::Fractal, args, 1)
    } else {
        Err(CommandError::Usage)
    }
}

} // verus!
