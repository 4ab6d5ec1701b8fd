//! File names: which ones the file system would refuse, and what each output
//! file of a crop is called.

use crate::config::{Config, FileName, NameType};
use vstd::prelude::*;

verus! {

/// A control character: one of the code points 0 to 31.
pub open spec fn is_control(c: char) -> bool {
    (c as u32) <= 31
}

/// A character that may not stand in a file name.
pub open spec fn is_forbidden(c: char) -> bool {
    c == '<' || c == '>' || c == ':' || c == '"' || c == '/' || c == '\\' || c == '|' || c == '?'
        || c == '*'
}

/// The upper-case form of an ASCII letter; any other character unchanged.
pub open spec fn ascii_upper(c: char) -> char {
    if 'a' <= c && c <= 'z' {
        ((c as u32) - 32) as char
    } else {
        c
    }
}

/// A name with each ASCII letter in upper case.
pub open spec fn ascii_uppercase(s: Seq<char>) -> Seq<char> {
    Seq::new(s.len(), |i: int| ascii_upper(s[i]))
}

/// One of the names that are set aside for devices: CON, PRN, AUX, NUL,
/// COM1 to COM9 and LPT1 to LPT9.
pub open spec fn is_device_name(s: Seq<char>) -> bool {
    ||| s == seq!['C', 'O', 'N']
    ||| s == seq!['P', 'R', 'N']
    ||| s == seq!['A', 'U', 'X']
    ||| s == seq!['N', 'U', 'L']
    ||| exists|digit: char| '1' <= digit && digit <= '9' && s == seq!['C', 'O', 'M', digit]
    ||| exists|digit: char| '1' <= digit && digit <= '9' && s == seq!['L', 'P', 'T', digit]
}

/// The name cannot be given to a file: it is empty, holds a control
/// character or a forbidden character, or is, in whatever case, a device
/// name.
pub open spec fn illegal(s: Seq<char>) -> bool {
    ||| s.len() == 0
    ||| exists|i: int| 0 <= i < s.len() && (is_control(#[trigger] s[i]) || is_forbidden(s[i]))
    ||| is_device_name(ascii_uppercase(s))
}

fn is_bad_char(c: char) -> (r: bool)
    ensures
        r == (is_control(c) || is_forbidden(c)),
{
    (c as u32) <= 31 || c == '<' || c == '>' || c == ':' || c == '"' || c == '/' || c == '\\' || c
        == '|' || c == '?' || c == '*'
}

fn is_letter(c: char, upper: char) -> (r: bool)
    requires
        'A' <= upper && upper <= 'Z',
    ensures
        r == (ascii_upper(c) == upper),
{
    c == upper || (c as u32) == (upper as u32) + 32
}

fn is_digit_1_to_9(c: char) -> (r: bool)
    ensures
        r == ('1' <= c && c <= '9'),
        r ==> ascii_upper(c) == c,
        r == ('1' <= ascii_upper(c) && ascii_upper(c) <= '9'),
{
    (c as u32) >= 49 && (c as u32) <= 57
}

fn is_reserved(s: &str) -> (r: bool)
    ensures
        r == is_device_name(ascii_uppercase(s@)),
{
    let n = s.unicode_len();
    let ghost u = ascii_uppercase(s@);
    if n == 3 {
        let a = s.get_char(0);
        let b = s.get_char(1);
        let c = s.get_char(2);
        proof {
            assert(u[0] == ascii_upper(a) && u[1] == ascii_upper(b) && u[2] == ascii_upper(c));
            lemma_three(u, 'C', 'O', 'N');
            lemma_three(u, 'P', 'R', 'N');
            lemma_three(u, 'A', 'U', 'X');
            lemma_three(u, 'N', 'U', 'L');
            lemma_not_four(u);
        }
        (is_letter(a, 'C') && is_letter(b, 'O') && is_letter(c, 'N')) || (is_letter(a, 'P')
            && is_letter(b, 'R') && is_letter(c, 'N')) || (is_letter(a, 'A') && is_letter(b, 'U')
            && is_letter(c, 'X')) || (is_letter(a, 'N') && is_letter(b, 'U') && is_letter(c, 'L'))
    } else if n == 4 {
        let a = s.get_char(0);
        let b = s.get_char(1);
        let c = s.get_char(2);
        let d = s.get_char(3);
        proof {
            assert(u[0] == ascii_upper(a) && u[1] == ascii_upper(b) && u[2] == ascii_upper(c)
                && u[3] == ascii_upper(d));
            lemma_not_three(u);
            assert forall|digit: char|
                (u == seq!['C', 'O', 'M', digit]) == (u[0] == 'C' && u[1] == 'O' && u[2] == 'M'
                    && u[3] == digit) && (u == seq!['L', 'P', 'T', digit]) == (u[0] == 'L' && u[1]
                    == 'P' && u[2] == 'T' && u[3] == digit) by {
                lemma_four(u, 'C', 'O', 'M', digit);
                lemma_four(u, 'L', 'P', 'T', digit);
            }
            lemma_four(u, 'C', 'O', 'M', u[3]);
            lemma_four(u, 'L', 'P', 'T', u[3]);
        }
        is_digit_1_to_9(d) && ((is_letter(a, 'C') && is_letter(b, 'O') && is_letter(c, 'M')) || (
        is_letter(a, 'L') && is_letter(b, 'P') && is_letter(c, 'T')))
    } else {
        proof {
            lemma_not_three(u);
            lemma_not_four(u);
        }
        false
    }
}

/// A name that has not three characters is none of the device names of
/// three characters.
proof fn lemma_not_three(u: Seq<char>)
    requires
        u.len() != 3,
    ensures
        u != seq!['C', 'O', 'N'],
        u != seq!['P', 'R', 'N'],
        u != seq!['A', 'U', 'X'],
        u != seq!['N', 'U', 'L'],
{
}

/// A name that has not four characters is none of the device names of four
/// characters.
proof fn lemma_not_four(u: Seq<char>)
    requires
        u.len() != 4,
    ensures
        forall|digit: char| u != seq!['C', 'O', 'M', digit] && u != seq!['L', 'P', 'T', digit],
{
}

/// A name is a given name of three characters exactly if it has three
/// characters and they are the given ones.
proof fn lemma_three(u: Seq<char>, a: char, b: char, c: char)
    ensures
        (u == seq![a, b, c]) == (u.len() == 3 && u[0] == a && u[1] == b && u[2] == c),
{
    if u.len() == 3 && u[0] == a && u[1] == b && u[2] == c {
        assert(u =~= seq![a, b, c]);
    }
}

/// A name is a given name of four characters exactly if it has four
/// characters and they are the given ones.
proof fn lemma_four(u: Seq<char>, a: char, b: char, c: char, d: char)
    ensures
        (u == seq![a, b, c, d]) == (u.len() == 4 && u[0] == a && u[1] == b && u[2] == c && u[3]
            == d),
{
    if u.len() == 4 && u[0] == a && u[1] == b && u[2] == c && u[3] == d {
        assert(u =~= seq![a, b, c, d]);
    }
}

/// Whether the name cannot be given to a file: whether it is empty, holds a
/// control character (code points 0 to 31) or one of `< > : " / \ | ? *`,
/// or is, in whatever case, one of the device names CON, PRN, AUX, NUL,
/// COM1 to COM9 and LPT1 to LPT9.
///
/// This catches the common cases; a name that passes may still be refused
/// by a file system.
pub fn is_illegal(s: &str) -> (r: bool)
    ensures
        r == illegal(s@),
{
    if s.is_empty() {
        return true;
    }
    for c in chars: s.chars()
        invariant
            chars.seq() == s@,
            forall|k: int|
                0 <= k < chars.index() ==> !(is_control(#[trigger] s@[k]) || is_forbidden(s@[k])),
    {
        if is_bad_char(c) {
            return true;
        }
    }
    is_reserved(s)
}

impl FileName {
    /// Whether the custom name cannot be given to a file.
    pub fn is_illegal(&self) -> (r: bool)
        ensures
            r == illegal(self.name@),
    {
        is_illegal(self.name.as_str())
    }
}

/// Why a crop could not be carried through.
#[derive(Clone, Copy, Debug, PartialEq, Eq, Structural)]
pub enum CropError {
    /// Fewer than two images were given: there is nothing to compare.
    Input,
    /// An output file was to be named after its source, and the source has
    /// no name to offer.
    Naming,
    /// An image could not be written out.
    Io,
}

impl CropError {
    /// A sentence that says what went wrong.
    pub fn message(&self) -> (r: &str)
        ensures
            r@ == match *self {
                CropError::Input => "At minimum two images must be selected."@,
                CropError::Naming => "Could not retrieve original file name."@,
                CropError::Io => "Could not write the image."@,
            },
    {
        match self {
            CropError::Input => "At minimum two images must be selected.",
            CropError::Naming => "Could not retrieve original file name.",
            CropError::Io => "Could not write the image.",
        }
    }
}

/// What the path that an image was read from offers as a name: the file
/// name without its extension, and the whole file name. Either may be
/// missing.
#[derive(Debug)]
pub struct SourceName {
    pub stem: Option<String>,
    pub file_name: Option<String>,
}

impl SourceName {
    /// The name that the source offers: its stem if it has one, else its
    /// whole file name, else nothing.
    pub open spec fn offered(self) -> Option<Seq<char>> {
        match self.stem {
            Some(stem) => Some(stem@),
            None => match self.file_name {
                Some(file_name) => Some(file_name@),
                None => None,
            },
        }
    }
}

/// The character for a single digit.
pub open spec fn digit(d: nat) -> char {
    ('0' as u32 + d) as char
}

/// A number written in decimal digits, without leading zeros.
pub open spec fn decimal(n: nat) -> Seq<char>
    decreases n,
{
    if n < 10 {
        seq![digit(n)]
    } else {
        decimal(n / 10).push(digit(n % 10))
    }
}

/// The extension that every output file carries.
pub open spec fn png_extension() -> Seq<char> {
    seq!['.', 'p', 'n', 'g']
}

/// The name, without extension, of the output file for the image at
/// `index` of the batch, or nothing where the name is to come from the
/// source and the source offers none.
///
/// The background, at index 0, goes by `bg_name`, every other image by
/// `file_name`. A custom name stands as it is for the background; for
/// another image its index follows it, so that the images after the
/// background are numbered from 1.
pub open spec fn stem(config: Config, index: nat, source: SourceName) -> Option<Seq<char>> {
    if index == 0 {
        match config.bg_name.name_type {
            NameType::Original => source.offered(),
            NameType::Custom => Some(config.bg_name.name@),
        }
    } else {
        match config.file_name.name_type {
            NameType::Original => source.offered(),
            NameType::Custom => Some(config.file_name.name@ + decimal(index)),
        }
    }
}

fn digit_str(d: usize) -> (r: &'static str)
    requires
        d < 10,
    ensures
        r@ == seq![digit(d as nat)],
{
    proof {
        reveal_strlit("0");
        reveal_strlit("1");
        reveal_strlit("2");
        reveal_strlit("3");
        reveal_strlit("4");
        reveal_strlit("5");
        reveal_strlit("6");
        reveal_strlit("7");
        reveal_strlit("8");
        reveal_strlit("9");
    }
    let r = if d == 0 {
        "0"
    } else if d == 1 {
        "1"
    } else if d == 2 {
        "2"
    } else if d == 3 {
        "3"
    } else if d == 4 {
        "4"
    } else if d == 5 {
        "5"
    } else if d == 6 {
        "6"
    } else if d == 7 {
        "7"
    } else if d == 8 {
        "8"
    } else {
        "9"
    };
    r
}

/// Writes a number in decimal digits.
pub fn decimal_string(n: usize) -> (r: String)
    ensures
        r@ == decimal(n as nat),
    decreases n,
{
    if n < 10 {
        String::from_str(digit_str(n))
    } else {
        let mut s = decimal_string(n / 10);
        s.append(digit_str(n % 10));
        proof {
            assert(decimal((n / 10) as nat) + seq![digit((n % 10) as nat)] =~= decimal(
                (n / 10) as nat,
            ).push(digit((n % 10) as nat)));
        }
        s
    }
}

fn offered_name(source: &SourceName) -> (r: Result<String, CropError>)
    ensures
        match source.offered() {
            Some(name) => r matches Ok(s) && s@ == name,
            None => r matches Err(e) && e == CropError::Naming,
        },
{
    match &source.stem {
        Some(stem) => Ok(stem.clone()),
        None => match &source.file_name {
            Some(file_name) => Ok(file_name.clone()),
            None => Err(CropError::Naming),
        },
    }
}

/// The name, without extension, of the output file for the image at `index`
/// of the batch. It fails with `CropError::Naming` exactly where the name is
/// to come from the source and the source offers none.
pub fn file_stem(config: &Config, index: usize, source: &SourceName) -> (r: Result<
    String,
    CropError,
>)
    ensures
        match stem(*config, index as nat, *source) {
            Some(name) => r matches Ok(s) && s@ == name,
            None => r matches Err(e) && e == CropError::Naming,
        },
{
    if index == 0 {
        match config.bg_name.name_type {
            NameType::Original => offered_name(source),
            NameType::Custom => Ok(config.bg_name.name.clone()),
        }
    } else {
        match config.file_name.name_type {
            NameType::Original => offered_name(source),
            NameType::Custom => {
                let mut name = config.file_name.name.clone();
                let position = decimal_string(index);
                name.append(position.as_str());
                Ok(name)
            },
        }
    }
}

/// The name of the output file for the image at `index` of the batch: its
/// stem with `.png` after it. It fails as `file_stem` does.
pub fn output_file_name(config: &Config, index: usize, source: &SourceName) -> (r: Result<
    String,
    CropError,
>)
    ensures
        match stem(*config, index as nat, *source) {
            Some(name) => r matches Ok(s) && s@ == name + png_extension(),
            None => r matches Err(e) && e == CropError::Naming,
        },
{
    match file_stem(config, index, source) {
        Ok(name) => {
            let mut name = name;
            proof {
                reveal_strlit(".png");
            }
            name.append(".png");
            Ok(name)
        },
        Err(e) => Err(e),
    }
}

} // verus!
