//! Reading sizes: shares like `45%` and extents like `800px`.
use crate::model::Size;
use crate::show;
use crate::text;
use crate::text::{parse_i32, strip_suffix, trim};
use vstd::prelude::*;

verus! {

/// A number in front of a percent sign: the IEEE 754 bits of the number itself,
/// and those of a hundredth of it.
#[derive(Debug, Clone, Copy, PartialEq, Eq, Structural)]
pub struct Percentage {
    pub value: u64,
    pub ratio: u64,
}

/// The bits of 100 as a double.
pub const HUNDRED: u64 = 0x4059_0000_0000_0000;

/// The number is finite, more than 0 and at most 100: among the doubles that are
/// not negative the bits grow with the number, and those of all others are
/// larger.
pub open spec fn is_share(p: Percentage) -> bool {
    0 < p.value <= HUNDRED
}

/// The text of the number in front of a percent sign, if the size ends in one.
pub open spec fn percent_text(raw: Seq<char>) -> Option<Seq<char>> {
    let t = text::trimmed(raw);
    if "%"@.is_suffix_of(t) {
        Some(text::trimmed(t.take(t.len() - 1)))
    } else {
        None
    }
}

/// The text of the number of pixels.
pub open spec fn pixel_text(raw: Seq<char>) -> Seq<char> {
    let t = text::trimmed(raw);
    if "px"@.is_suffix_of(t) {
        text::trimmed(t.take(t.len() - 2))
    } else {
        text::trimmed(t)
    }
}

/// The size that a text stands for, or what is wrong with it. `number` is the
/// number in front of its percent sign, if it has one that can be read.
pub open spec fn size_of(raw: Seq<char>, number: Option<Percentage>) -> Result<Size, Seq<char>> {
    if percent_text(raw) is Some {
        match number {
            Some(p) => if is_share(p) {
                Ok(Size::Percent(p.ratio))
            } else {
                Err("percentage must be > 0 and <= 100"@)
            },
            None => Err("invalid percentage"@),
        }
    } else {
        match text::i32_number(pixel_text(raw)) {
            Some(n) => if n > 0 {
                Ok(Size::Pixels(n as i32))
            } else {
                Err("pixel value must be positive"@)
            },
            None => Err("invalid pixel value"@),
        }
    }
}

pub open spec fn size_view(out: Result<Size, &'static str>) -> Result<Size, Seq<char>> {
    match out {
        Ok(s) => Ok(s),
        Err(e) => Err(e@),
    }
}

impl Size {
    /// The text of the number in front of a percent sign, if the size ends in one:
    /// what has to be read as a double for `from_str`.
    pub fn percent_number(raw: &str) -> (out: Option<&str>)
        ensures
            match out {
                Some(s) => percent_text(raw@) == Some(s@),
                None => percent_text(raw@) is None,
            },
    {
        proof {
            reveal_strlit("%");
        }
        match strip_suffix(trim(raw), "%") {
            Some(rest) => Some(trim(rest)),
            None => None,
        }
    }

    /// Reads a size. `number` is the number in front of its percent sign, where it
    /// has one that can be read.
    pub fn from_str(raw: &str, number: Option<Percentage>) -> (out: Result<Size, &'static str>)
        ensures
            size_view(out) == size_of(raw@, number),
    {
        proof {
            reveal_strlit("%");
            reveal_strlit("px");
        }
        let all: &str = trim(raw);
        if strip_suffix(all, "%").is_some() {
            return match number {
                Some(p) => if 0 < p.value && p.value <= HUNDRED {
                    Ok(Size::Percent(p.ratio))
                } else {
                    Err("percentage must be > 0 and <= 100")
                },
                None => Err("invalid percentage"),
            };
        }
        let digits: &str = match strip_suffix(all, "px") {
            Some(rest) => trim(rest),
            None => trim(all),
        };
        match parse_i32(digits) {
            Some(n) => if n > 0 {
                Ok(Size::Pixels(n))
            } else {
                Err("pixel value must be positive")
            },
            None => Err("invalid pixel value"),
        }
    }
}

/// A size in pixels reads back as it was written.
pub proof fn pixels_read_back(px: i32, percent: Seq<char>, number: Option<Percentage>)
    requires
        px > 0,
    ensures
        size_of(show::size_shown(Size::Pixels(px), percent), number) == Ok::<Size, Seq<char>>(
            Size::Pixels(px),
        ),
{
    let d = text::decimal(px as nat);
    let s = d + "px"@;
    reveal_strlit("px");
    reveal_strlit("%");
    text::decimal_is_digits(px as nat);
    text::decimal_reads_back(px as nat, i32::MAX as int);
    assert(d.len() > 0);
    assert(text::is_digit(d[0]) && text::is_digit(d.last()));
    assert(s[0] == d[0] && s.last() == 'x');
    assert(text::trimmed(s) == s);
    assert(!("%"@.is_suffix_of(s))) by {
        if "%"@.is_suffix_of(s) {
            assert(s.subrange(s.len() - 1, s.len() as int)[0] == "%"@[0]);
        }
    }
    assert(s.subrange(s.len() - 2, s.len() as int) =~= "px"@);
    assert(s.take(s.len() - 2) =~= d);
    assert(text::trimmed(d) == d);
}

/// A share reads back as it was written, where the number in front of its percent
/// sign is read as a number of percent whose hundredth is the share.
pub proof fn shares_read_back(ratio: u64, percent: Seq<char>, number: Percentage)
    requires
        percent.len() > 0,
        text::trimmed(percent) == percent,
        number.ratio == ratio,
        is_share(number),
    ensures
        percent_text(show::size_shown(Size::Percent(ratio), percent)) == Some(percent),
        size_of(show::size_shown(Size::Percent(ratio), percent), Some(number)) == Ok::<
            Size,
            Seq<char>,
        >(Size::Percent(ratio)),
{
    let s = percent + "%"@;
    reveal_strlit("%");
    text::trimmed_has_no_white_ends(percent);
    assert(s[0] == percent[0] && s.last() == '%');
    assert(text::trimmed(s) == s);
    assert(s.subrange(s.len() - 1, s.len() as int) =~= "%"@);
    assert(s.take(s.len() - 1) =~= percent);
}

} // verus!
