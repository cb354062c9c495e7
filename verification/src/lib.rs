//! A verified core for the Z-machine, the virtual machine behind the
//! Infocom-era interactive-fiction story files (versions 1 through 8).
//!
//! The library owns one loaded story image together with the execution state
//! (evaluation stack, call frames, output transcript) and exposes read access
//! to the story's structured memory: typed addresses, the header, the object
//! tree, the dictionary, Z-string decoding, and the instruction decoder.
//! All host input/output stays outside: the machine consumes a byte buffer,
//! buffers its text output in a transcript, and reports control flow and
//! host requests as [`vm::Action`] values.

use vstd::prelude::*;

pub mod bits;
pub mod consts;
pub mod dictionary;
pub mod encode;
pub mod memory;
pub mod meta;
pub mod objects;
pub mod text;
pub mod vm;
pub mod window;

use crate::vm::Frame;

verus! {

/// The mathematical value of a whole machine: the story image plus the
/// execution state.
pub ghost struct MachineView {
    /// The story image, a sequence of octets.
    pub mem: Seq<u8>,
    /// The evaluation stack, bottom first.
    pub stack: Seq<u16>,
    /// The call frames, outermost first.
    pub frames: Seq<vm::FrameView>,
    /// Everything printed so far.
    pub output: Seq<char>,
    /// Whether a quit instruction has been executed.
    pub halted: bool,
}

/// A Z-machine with a loaded story.
pub struct ZMachine {
    pub(crate) memory: Vec<u8>,
    pub(crate) stack: Vec<u16>,
    pub(crate) frames: Vec<Frame>,
    pub(crate) output: String,
    pub(crate) halted: bool,
}

impl View for ZMachine {
    type V = MachineView;

    closed spec fn view(&self) -> MachineView {
        MachineView {
            mem: self.memory@,
            stack: self.stack@,
            frames: self.frames@.map_values(|f: Frame| f@),
            output: self.output@,
            halted: self.halted,
        }
    }
}

impl ZMachine {
    /// The story image as a mathematical sequence of octets.
    pub open spec fn mem(self) -> Seq<u8> {
        self@.mem
    }

    /// A loaded story always carries at least its 64-octet header.
    pub open spec fn wf(self) -> bool {
        self.mem().len() >= 64
    }

    /// Creates a Z-machine instance from a story file already loaded in
    /// memory. Only a story smaller than its mandatory 64-octet header is
    /// refused; loading succeeds on every other image.
    pub fn new(file: Vec<u8>) -> (r: Result<Self, LoadError>)
        ensures
            r is Ok <==> file@.len() >= 64,
            match r {
                Ok(z) => {
                    &&& z.wf()
                    &&& z@ == (MachineView {
                        mem: file@,
                        stack: Seq::<u16>::empty(),
                        frames: Seq::<vm::FrameView>::empty(),
                        output: Seq::<char>::empty(),
                        halted: false,
                    })
                },
                Err(LoadError::TooSmall(n)) => n == file@.len() && file@.len() < 64,
                Err(LoadError::Unknown) => false,
            },
    {
        if file.len() < 64 {
            return Err(LoadError::TooSmall(file.len()));
        }
        let z = ZMachine {
            memory: file,
            stack: Vec::new(),
            frames: Vec::new(),
            output: String::new(),
            halted: false,
        };
        proof {
            assert(z@.frames =~= Seq::<vm::FrameView>::empty());
        }
        Ok(z)
    }

    /// The length of the story in bytes.
    pub fn len_bytes(&self) -> (r: usize)
        ensures
            r == self.mem().len(),
    {
        self.memory.len()
    }

    /// The length of the story in bits.
    pub fn len_bits(&self) -> (r: usize)
        requires
            self.mem().len() * 8 <= usize::MAX,
        ensures
            r == self.mem().len() * 8,
    {
        self.memory.len() * 8
    }

    /// The length of the story in whole [`bits::Word`]s.
    pub fn len_words(&self) -> (r: usize)
        ensures
            r == self.mem().len() / 2,
    {
        self.memory.len() / 2
    }
}

/// Errors that can occur while loading a story.
#[derive(Debug, Clone, Copy, PartialEq, Eq, Structural)]
pub enum LoadError {
    /// The story is smaller than its mandatory 64-octet header.
    TooSmall(usize),
    /// An unknown error of some other kind.
    Unknown,
}

/// The result of loading a story.
pub type LoadResult<T> = Result<T, LoadError>;

} // verus!
