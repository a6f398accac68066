use vstd::prelude::*;

use crate::virtual_memory::VirtualMemoryManager;

verus! {

/// I/O port of the keyboard controller's status register.
pub const STATUS_REGISTER_PORT: u16 = 0x64;

/// I/O port of the keyboard controller's data buffer.
pub const INPUT_BUFFER_PORT: u16 = 0x60;

/// The character that a key-release scan code (set 1) stands for, if any.
pub open spec fn scan_code_char(scancode: u8) -> Option<char> {
    if scancode == 0x9E {
        Some('A')
    } else if scancode == 0xB0 {
        Some('B')
    } else if scancode == 0xAE {
        Some('C')
    } else if scancode == 0xA0 {
        Some('D')
    } else if scancode == 0x92 {
        Some('E')
    } else if scancode == 0xA1 {
        Some('F')
    } else if scancode == 0xA2 {
        Some('G')
    } else if scancode == 0xA3 {
        Some('H')
    } else if scancode == 0x97 {
        Some('I')
    } else if scancode == 0xA4 {
        Some('J')
    } else if scancode == 0xA5 {
        Some('K')
    } else if scancode == 0xA6 {
        Some('L')
    } else if scancode == 0xB2 {
        Some('M')
    } else if scancode == 0xB1 {
        Some('N')
    } else if scancode == 0x98 {
        Some('O')
    } else if scancode == 0x99 {
        Some('P')
    } else if scancode == 0x90 {
        Some('Q')
    } else if scancode == 0x93 {
        Some('R')
    } else if scancode == 0x9F {
        Some('S')
    } else if scancode == 0x94 {
        Some('T')
    } else if scancode == 0x96 {
        Some('U')
    } else if scancode == 0xAF {
        Some('V')
    } else if scancode == 0x91 {
        Some('W')
    } else if scancode == 0xAD {
        Some('X')
    } else if scancode == 0x95 {
        Some('Y')
    } else if scancode == 0xAC {
        Some('Z')
    } else if scancode == 0x8B {
        Some('0')
    } else if scancode == 0x82 {
        Some('1')
    } else if scancode == 0x83 {
        Some('2')
    } else if scancode == 0x84 {
        Some('3')
    } else if scancode == 0x85 {
        Some('4')
    } else if scancode == 0x86 {
        Some('5')
    } else if scancode == 0x87 {
        Some('6')
    } else if scancode == 0x88 {
        Some('7')
    } else if scancode == 0x89 {
        Some('8')
    } else if scancode == 0x8A {
        Some('9')
    } else if scancode == 0xB9 {
        Some(' ')
    } else if scancode == 0x8C {
        Some('-')
    } else if scancode == 0x8D {
        Some('=')
    } else if scancode == 0x9A {
        Some('[')
    } else if scancode == 0x9B {
        Some(']')
    } else if scancode == 0xAB {
        Some('\\')
    } else if scancode == 0xA7 {
        Some(';')
    } else if scancode == 0xA8 {
        Some('\'')
    } else if scancode == 0xA9 {
        Some('`')
    } else if scancode == 0xB3 {
        Some(',')
    } else if scancode == 0xB4 {
        Some('.')
    } else if scancode == 0xB5 {
        Some('/')
    } else if scancode == 0xD2 {
        Some('0')
    } else if scancode == 0xCF {
        Some('1')
    } else if scancode == 0xD0 {
        Some('2')
    } else if scancode == 0xD1 {
        Some('3')
    } else if scancode == 0xCB {
        Some('4')
    } else if scancode == 0xCC {
        Some('5')
    } else if scancode == 0xCD {
        Some('6')
    } else if scancode == 0xC7 {
        Some('7')
    } else if scancode == 0xC8 {
        Some('8')
    } else if scancode == 0xC9 {
        Some('9')
    } else if scancode == 0xD3 {
        Some('.')
    } else if scancode == 0xB7 {
        Some('*')
    } else if scancode == 0xCA {
        Some('-')
    } else if scancode == 0xCE {
        Some('+')
    } else {
        None
    }
}

/// The two flags of the keyboard controller's status register that the
/// shell looks at.
#[derive(Debug, Clone, Copy, PartialEq, Eq, Structural)]
pub struct StatusRegister {
    pub out_buffer_full: bool,
    pub in_buffer_full: bool,
}

impl StatusRegister {
    /// Decodes the status register's value.
    pub fn new(status: u8) -> (r: StatusRegister)
        ensures
            r.out_buffer_full == (status & 0x01 != 0),
            r.in_buffer_full == (status & 0x02 != 0),
    {
        StatusRegister { out_buffer_full: status & 0x01 != 0, in_buffer_full: status & 0x02 != 0 }
    }
}

/// A shell that echoes typed characters.
pub struct KernelShell<'a> {
    pub stuff: &'a VirtualMemoryManager,
}

impl<'a> KernelShell<'a> {
    /// A shell over the kernel's virtual memory manager.
    pub fn new(vmm: &'a VirtualMemoryManager) -> (s: Self)
        ensures
            s.stuff == vmm,
    {
        KernelShell { stuff: vmm }
    }

    /// The character that a key-release scan code stands for: letters,
    /// digits, space, punctuation and the numeric keypad; none otherwise.
    pub fn translate_potential_scan_code(&self, scancode: u8) -> (r: Option<char>)
        ensures
            r == scan_code_char(scancode),
    {
        match scancode {
            0x9E => Some('A'),
            0xB0 => Some('B'),
            0xAE => Some('C'),
            0xA0 => Some('D'),
            0x92 => Some('E'),
            0xA1 => Some('F'),
            0xA2 => Some('G'),
            0xA3 => Some('H'),
            0x97 => Some('I'),
            0xA4 => Some('J'),
            0xA5 => Some('K'),
            0xA6 => Some('L'),
            0xB2 => Some('M'),
            0xB1 => Some('N'),
            0x98 => Some('O'),
            0x99 => Some('P'),
            0x90 => Some('Q'),
            0x93 => Some('R'),
            0x9F => Some('S'),
            0x94 => Some('T'),
            0x96 => Some('U'),
            0xAF => Some('V'),
            0x91 => Some('W'),
            0xAD => Some('X'),
            0x95 => Some('Y'),
            0xAC => Some('Z'),
            0x8B => Some('0'),
            0x82 => Some('1'),
            0x83 => Some('2'),
            0x84 => Some('3'),
            0x85 => Some('4'),
            0x86 => Some('5'),
            0x87 => Some('6'),
            0x88 => Some('7'),
            0x89 => Some('8'),
            0x8A => Some('9'),
            0xB9 => Some(' '),
            0x8C => Some('-'),
            0x8D => Some('='),
            0x9A => Some('['),
            0x9B => Some(']'),
            0xAB => Some('\\'),
            0xA7 => Some(';'),
            0xA8 => Some('\''),
            0xA9 => Some('`'),
            0xB3 => Some(','),
            0xB4 => Some('.'),
            0xB5 => Some('/'),
            0xD2 => Some('0'),
            0xCF => Some('1'),
            0xD0 => Some('2'),
            0xD1 => Some('3'),
            0xCB => Some('4'),
            0xCC => Some('5'),
            0xCD => Some('6'),
            0xC7 => Some('7'),
            0xC8 => Some('8'),
            0xC9 => Some('9'),
            0xD3 => Some('.'),
            0xB7 => Some('*'),
            0xCA => Some('-'),
            0xCE => Some('+'),
            _ => None,
        }
    }
}


/// The digit row of the keyboard, left to right, from `1` to `=`.
pub open spec fn digit_row() -> Seq<char> {
    seq!['1', '2', '3', '4', '5', '6', '7', '8', '9', '0', '-', '=']
}

/// The top letter row, left to right, from `Q` to `]`.
pub open spec fn top_row() -> Seq<char> {
    seq!['Q', 'W', 'E', 'R', 'T', 'Y', 'U', 'I', 'O', 'P', '[', ']']
}

/// The middle letter row, left to right, from `A` to the backquote that set 1
/// numbers after it.
pub open spec fn middle_row() -> Seq<char> {
    seq!['A', 'S', 'D', 'F', 'G', 'H', 'J', 'K', 'L', ';', '\'', '`']
}

/// The bottom letter row, left to right, from the backslash that set 1
/// numbers before it to `/`.
pub open spec fn bottom_row() -> Seq<char> {
    seq!['\\', 'Z', 'X', 'C', 'V', 'B', 'N', 'M', ',', '.', '/']
}

/// The numeric keypad, row by row from `7` to `.`.
pub open spec fn keypad() -> Seq<char> {
    seq!['7', '8', '9', '-', '4', '5', '6', '+', '1', '2', '3', '0', '.']
}

/// The shell follows scan code set 1: the keys of each row have consecutive
/// make codes (the digit row from 0x02, the top row from 0x10, the middle
/// row from 0x1E, the bottom row from 0x2B, the keypad from 0x47, with the
/// keypad `*` at 0x37 and the space bar at 0x39), and the release code of a
/// key, its make code plus 0x80, gives that key's character. No other code
/// gives a character; in particular make codes (below 0x80) give none.
pub proof fn lemma_release_codes_follow_layout()
    ensures
        forall|k: int| 0 <= k < 12 ==> scan_code_char((0x82 + k) as u8) == Some(#[trigger] digit_row()[k]),
        forall|k: int| 0 <= k < 12 ==> scan_code_char((0x90 + k) as u8) == Some(#[trigger] top_row()[k]),
        forall|k: int| 0 <= k < 12 ==> scan_code_char((0x9E + k) as u8) == Some(#[trigger] middle_row()[k]),
        forall|k: int| 0 <= k < 11 ==> scan_code_char((0xAB + k) as u8) == Some(#[trigger] bottom_row()[k]),
        forall|k: int| 0 <= k < 13 ==> scan_code_char((0xC7 + k) as u8) == Some(#[trigger] keypad()[k]),
        scan_code_char(0xB7) == Some('*'),
        scan_code_char(0xB9) == Some(' '),
        forall|c: u8| #[trigger] scan_code_char(c) is Some ==> {
            ||| 0x82 <= c < 0x82 + 12
            ||| 0x90 <= c < 0x90 + 12
            ||| 0x9E <= c < 0x9E + 12
            ||| 0xAB <= c < 0xAB + 11
            ||| 0xC7 <= c < 0xC7 + 13
            ||| c == 0xB7
            ||| c == 0xB9
        },
{
    assert forall|k: int| 0 <= k < 12 implies scan_code_char((0x82 + k) as u8) == Some(#[trigger] digit_row()[k]) by {
        assert(k == 0 || k == 1 || k == 2 || k == 3 || k == 4 || k == 5 || k == 6 || k == 7 || k == 8 || k == 9 || k == 10 || k == 11);
    }
    assert forall|k: int| 0 <= k < 12 implies scan_code_char((0x90 + k) as u8) == Some(#[trigger] top_row()[k]) by {
        assert(k == 0 || k == 1 || k == 2 || k == 3 || k == 4 || k == 5 || k == 6 || k == 7 || k == 8 || k == 9 || k == 10 || k == 11);
    }
    assert forall|k: int| 0 <= k < 12 implies scan_code_char((0x9E + k) as u8) == Some(#[trigger] middle_row()[k]) by {
        assert(k == 0 || k == 1 || k == 2 || k == 3 || k == 4 || k == 5 || k == 6 || k == 7 || k == 8 || k == 9 || k == 10 || k == 11);
    }
    assert forall|k: int| 0 <= k < 11 implies scan_code_char((0xAB + k) as u8) == Some(#[trigger] bottom_row()[k]) by {
        assert(k == 0 || k == 1 || k == 2 || k == 3 || k == 4 || k == 5 || k == 6 || k == 7 || k == 8 || k == 9 || k == 10);
    }
    assert forall|k: int| 0 <= k < 13 implies scan_code_char((0xC7 + k) as u8) == Some(#[trigger] keypad()[k]) by {
        assert(k == 0 || k == 1 || k == 2 || k == 3 || k == 4 || k == 5 || k == 6 || k == 7 || k == 8 || k == 9 || k == 10 || k == 11 || k == 12);
    }
}

} // verus!
