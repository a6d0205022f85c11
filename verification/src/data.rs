//! Data directives: a labelled `.word`/`.half`/`.byte`/`.ascii`/`.asciiz`/
//! `.space` line serialized into its byte buffer.
//!
//! Numeric values are written big-endian at their declared width, `.asciiz`
//! appends one NUL byte to the quoted string's bytes, `.ascii` writes them
//! bare, and `.space N` writes `N` zero bytes. A value too large for its
//! declared width is a hard error, never a truncation.

use vstd::prelude::*;

use crate::errors::SyntaxError;
use crate::strutil::find_char;
use crate::strutil::first_delim;
use crate::strutil::hex_or_dec_u32_spec;
use crate::strutil::last_delim;
use crate::strutil::lemma_first_delim_at;
use crate::strutil::lemma_last_delim_at;
use crate::strutil::parse_hex_or_dec_u32;
use crate::strutil::replace_seq;
use crate::strutil::replace_str;
use crate::strutil::rfind_char;
use crate::strutil::split_any;
use crate::strutil::split_spec;
use crate::strutil::str_eq;
use crate::strutil::trim;
use crate::strutil::trim_spec;
use vstd::utf8::encode_utf8;

verus! {

/// The declared type of one data directive.
#[derive(Debug, PartialEq, Eq, Structural)]
pub enum DType {
    Word,
    Half,
    Byte,
    String,
    ZTerminatedString,
    Space,
}

/// One serialized data directive: its owning label, declared type and byte
/// buffer.
#[derive(Debug)]
pub struct Data {
    pub contents: Vec<u8>,
    pub dt: DType,
    pub tagname: String,
}

/// `256^w`: the smallest value that does not fit in `w` bytes.
pub open spec fn width_max(w: nat) -> nat
    decreases w,
{
    if w == 0 {
        1
    } else {
        256 * width_max((w - 1) as nat)
    }
}

/// The `w` big-endian bytes of `v`'s low `8*w` bits.
pub open spec fn be_bytes_spec(v: u32, w: nat) -> Seq<u8>
    decreases w,
{
    if w == 0 {
        Seq::empty()
    } else {
        be_bytes_spec(v / 256, (w - 1) as nat) + seq![(v % 256) as u8]
    }
}

/// The concatenated big-endian serializations of a comma-separated numeral
/// list, each at width `w`; `None` when an element is not a numeral or does
/// not fit.
pub open spec fn num_list_bytes(elems: Seq<Seq<char>>, w: nat) -> Option<Seq<u8>>
    decreases elems.len(),
{
    if elems.len() == 0 {
        Some(Seq::empty())
    } else {
        match hex_or_dec_u32_spec(elems[0]) {
            Some(v) => if (v as nat) < width_max(w) {
                match num_list_bytes(elems.skip(1), w) {
                    Some(rest) => Some(be_bytes_spec(v, w) + rest),
                    None => None,
                }
            } else {
                None
            },
            None => None,
        }
    }
}

/// The characters strictly between the first and last double quote of `s`,
/// when those are two distinct characters.
pub open spec fn delimit_spec(s: Seq<char>) -> Option<Seq<char>> {
    let l = first_delim(s, '"', '"');
    let r = last_delim(s, '"');
    if l < r {
        Some(s.subrange(l + 1, r))
    } else {
        None
    }
}

/// What a labelled data-directive line denotes: its label, declared type
/// and serialized bytes; `None` when the line is malformed.
pub open spec fn data_spec(s: Seq<char>) -> Option<(Seq<char>, DType, Seq<u8>)> {
    let ci = first_delim(s, ':', ':');
    if ci >= s.len() {
        None
    } else {
        let tagname = trim_spec(s.subrange(0, ci));
        let after = trim_spec(s.subrange(ci + 1, s.len() as int));
        let si = first_delim(after, ' ', ' ');
        if si >= after.len() || si < 1 {
            None
        } else if after[0] != '.' {
            None
        } else {
            let dt_pre = trim_spec(after.subrange(1, si));
            let content = trim_spec(after.subrange(si, after.len() as int));
            if dt_pre == "word"@ {
                match num_list_bytes(split_spec(replace_seq(content, " "@, ""@), ',', ','), 4) {
                    Some(b) => Some((tagname, DType::Word, b)),
                    None => None,
                }
            } else if dt_pre == "half"@ {
                match num_list_bytes(split_spec(replace_seq(content, " "@, ""@), ',', ','), 2) {
                    Some(b) => Some((tagname, DType::Half, b)),
                    None => None,
                }
            } else if dt_pre == "byte"@ {
                match num_list_bytes(split_spec(replace_seq(content, " "@, ""@), ',', ','), 1) {
                    Some(b) => Some((tagname, DType::Byte, b)),
                    None => None,
                }
            } else if dt_pre == "asciiz"@ {
                match delimit_spec(content) {
                    Some(inner) => Some(
                        (tagname, DType::ZTerminatedString, encode_utf8(inner) + seq![0u8]),
                    ),
                    None => None,
                }
            } else if dt_pre == "ascii"@ {
                match delimit_spec(content) {
                    Some(inner) => Some((tagname, DType::String, encode_utf8(inner))),
                    None => None,
                }
            } else if dt_pre == "space"@ {
                match hex_or_dec_u32_spec(content) {
                    Some(v) => Some((tagname, DType::Space, Seq::new(v as nat, |i: int| 0u8))),
                    None => None,
                }
            } else {
                None
            }
        }
    }
}

/// Converts a numeral string into an integer, reading a `0x`/`0X` prefix as
/// hexadecimal and anything else as decimal.
pub fn parse_int_hex_or_dec(s: &str) -> (r: Result<u32, SyntaxError>)
    ensures
        match r {
            Ok(v) => hex_or_dec_u32_spec(s@) == Some(v),
            Err(e) => hex_or_dec_u32_spec(s@) is None && (e matches SyntaxError::BadNumber(t)
                && t@ == s@),
        },
{
    match parse_hex_or_dec_u32(s) {
        Some(v) => Ok(v),
        None => Err(SyntaxError::BadNumber(String::from_str(s))),
    }
}

/// Takes a string containing a quoted part and returns the part between
/// the outermost quotes.
pub fn delimit_str(st: &str) -> (r: Result<&str, SyntaxError>)
    ensures
        match r {
            Ok(inner) => delimit_spec(st@) == Some(inner@),
            Err(e) => delimit_spec(st@) is None && e == SyntaxError::NoMatchingPair('"'),
        },
{
    let l = match find_char(st, '"') {
        Some(i) => i,
        None => {
            proof {
                lemma_first_delim_at(st@, '"', '"', st@.len() as int);
                lemma_last_delim_at(st@, '"', -1);
            }
            return Err(SyntaxError::NoMatchingPair('"'));
        },
    };
    let rr = match rfind_char(st, '"') {
        Some(i) => i,
        None => {
            proof {
                assert(false);
            }
            return Err(SyntaxError::NoMatchingPair('"'));
        },
    };
    proof {
        lemma_first_delim_at(st@, '"', '"', l as int);
        lemma_last_delim_at(st@, '"', rr as int);
    }
    if l < rr {
        Ok(st.substring_char(l + 1, rr))
    } else {
        Err(SyntaxError::NoMatchingPair('"'))
    }
}

/// The `N` big-endian bytes of `n_in`, which must fit in `N` bytes.
pub fn to_size_N<const N: u32>(n_in: u32) -> (v: Vec<u8>)
    requires
        (n_in as nat) < width_max(N as nat),
    ensures
        v@ == be_bytes_spec(n_in, N as nat),
{
    be_bytes(n_in, N)
}

/// The `w` big-endian bytes of `v`'s low bits.
pub(crate) fn be_bytes(v: u32, w: u32) -> (r: Vec<u8>)
    ensures
        r@ == be_bytes_spec(v, w as nat),
    decreases w,
{
    if w == 0 {
        Vec::new()
    } else {
        let mut r = be_bytes(v / 256, w - 1);
        let ghost prefix = r@;
        r.push((v % 256) as u8);
        proof {
            assert(r@ =~= prefix + seq![(v % 256) as u8]);
        }
        r
    }
}

/// Serializes a comma-separated numeral list (spaces already stripped) at
/// width `w`.
fn num_list(cleaned: &str, w: u32) -> (r: Result<Vec<u8>, SyntaxError>)
    requires
        1 <= w <= 4,
    ensures
        match r {
            Ok(v) => num_list_bytes(split_spec(cleaned@, ',', ','), w as nat) == Some(v@),
            Err(_) => num_list_bytes(split_spec(cleaned@, ',', ','), w as nat) is None,
        },
{
    proof {
        assert(width_max(0) == 1);
        assert(width_max(1) == 256);
        assert(width_max(2) == 65536);
        assert(width_max(3) == 16777216);
        assert(width_max(4) == 0x1_0000_0000);
    }
    let parts = split_any(cleaned, ',', ',');
    let ghost elems = split_spec(cleaned@, ',', ',');
    let mut acc: Vec<u8> = Vec::new();
    let mut i: usize = 0;
    let n = parts.len();
    proof {
        assert(elems.skip(0) =~= elems);
    }
    while i < n
        invariant
            i <= n,
            n == parts@.len(),
            n == elems.len(),
            elems == split_spec(cleaned@, ',', ','),
            1 <= w <= 4,
            width_max(1) == 256,
            width_max(2) == 65536,
            width_max(3) == 16777216,
            width_max(4) == 0x1_0000_0000,
            forall|k: int| 0 <= k < n ==> #[trigger] parts@[k]@ == elems[k],
            match num_list_bytes(elems.skip(i as int), w as nat) {
                Some(rest) => num_list_bytes(elems, w as nat) == Some(acc@ + rest),
                None => num_list_bytes(elems, w as nat) is None,
            },
        decreases n - i,
    {
        let ghost rest = elems.skip(i as int);
        let part = parts[i].as_str();
        let v = match parse_hex_or_dec_u32(part) {
            Some(v) => v,
            None => {
                proof {
                    assert(rest.len() == n - i);
                    assert(part@ == parts@[i as int]@);
                    assert(rest[0] == elems[i as int]);
                    assert(hex_or_dec_u32_spec(rest[0]) is None);
                    assert(num_list_bytes(rest, w as nat) is None);
                    assert(num_list_bytes(elems, w as nat) is None);
                }
                return Err(SyntaxError::BadNumber(String::from_str(part)));
            },
        };
        let fits: bool = if w == 4 {
            true
        } else if w == 1 {
            v < 256
        } else if w == 2 {
            v < 65536
        } else {
            v < 16777216
        };
        if !fits {
            proof {
                assert(rest.len() == n - i);
                assert(part@ == parts@[i as int]@);
                assert(rest[0] == elems[i as int]);
                assert((v as nat) >= width_max(w as nat));
                assert(num_list_bytes(rest, w as nat) is None);
                assert(num_list_bytes(elems, w as nat) is None);
            }
            return Err(SyntaxError::BadNumber(String::from_str(part)));
        }
        proof {
            assert((v as nat) < width_max(w as nat));
            assert(rest.skip(1) =~= elems.skip(i as int + 1));
        }
        let mut piece = be_bytes(v, w);
        let ghost acc_before = acc@;
        let ghost piece_view = piece@;
        acc.append(&mut piece);
        proof {
            assert(acc@ =~= acc_before + piece_view);
            let tail_opt = num_list_bytes(elems.skip(i as int + 1), w as nat);
            if tail_opt is Some {
                let r2 = tail_opt.unwrap();
                assert((acc_before + piece_view) + r2 =~= acc_before + (piece_view + r2));
            }
        }
        i += 1;
    }
    proof {
        assert(elems.skip(n as int) =~= Seq::<Seq<char>>::empty());
        assert(acc@ + Seq::<u8>::empty() =~= acc@);
    }
    Ok(acc)
}

/// A vector of `count` zero bytes.
fn zero_bytes(count: u32) -> (r: Vec<u8>)
    ensures
        r@ == Seq::new(count as nat, |i: int| 0u8),
{
    let mut r: Vec<u8> = Vec::new();
    let mut k: u32 = 0;
    while k < count
        invariant
            k <= count,
            r@ == Seq::new(k as nat, |i: int| 0u8),
        decreases count - k,
    {
        let ghost before = r@;
        r.push(0u8);
        k += 1;
        proof {
            assert(r@ =~= Seq::new(k as nat, |i: int| 0u8));
        }
    }
    r
}

impl Data {
    /// Reads a labelled data-directive line of the form
    /// `<tag>: .<type> <contents>` into its serialized form; the type
    /// keyword must carry its leading dot.
    pub fn from(line: &str) -> (r: Result<Data, SyntaxError>)
        ensures
            match r {
                Ok(d) => data_spec(line@) matches Some(m) && d.tagname@ == m.0 && d.dt == m.1
                    && d.contents@ == m.2,
                Err(_) => data_spec(line@) is None,
            },
    {
        let n = line.unicode_len();
        let ci = match find_char(line, ':') {
            Some(i) => i,
            None => {
                proof {
                    lemma_first_delim_at(line@, ':', ':', line@.len() as int);
                }
                return Err(SyntaxError::MalformedLine);
            },
        };
        proof {
            lemma_first_delim_at(line@, ':', ':', ci as int);
        }
        let tagname_part = line.substring_char(0, ci);
        let tagname_str = trim(tagname_part);
        let after_raw = line.substring_char(ci + 1, n);
        let after = trim(after_raw);
        let an = after.unicode_len();
        let si = match find_char(after, ' ') {
            Some(i) => i,
            None => {
                proof {
                    lemma_first_delim_at(after@, ' ', ' ', after@.len() as int);
                }
                return Err(SyntaxError::MalformedLine);
            },
        };
        proof {
            lemma_first_delim_at(after@, ' ', ' ', si as int);
        }
        if si < 1 {
            return Err(SyntaxError::MalformedLine);
        }
        if after.get_char(0) != '.' {
            return Err(SyntaxError::MalformedLine);
        }
        let dt_pre_raw = after.substring_char(1, si);
        let dt_pre = trim(dt_pre_raw);
        let content_raw = after.substring_char(si, an);
        let content = trim(content_raw);
        let tagname = String::from_str(tagname_str);
        proof {
            reveal_strlit(" ");
        }
        if str_eq(dt_pre, "word") {
            let cleaned = replace_str(content, " ", "");
            match num_list(cleaned.as_str(), 4) {
                Ok(contents) => Ok(Data { contents, dt: DType::Word, tagname }),
                Err(e) => Err(e),
            }
        } else if str_eq(dt_pre, "half") {
            let cleaned = replace_str(content, " ", "");
            match num_list(cleaned.as_str(), 2) {
                Ok(contents) => Ok(Data { contents, dt: DType::Half, tagname }),
                Err(e) => Err(e),
            }
        } else if str_eq(dt_pre, "byte") {
            let cleaned = replace_str(content, " ", "");
            match num_list(cleaned.as_str(), 1) {
                Ok(contents) => Ok(Data { contents, dt: DType::Byte, tagname }),
                Err(e) => Err(e),
            }
        } else if str_eq(dt_pre, "asciiz") {
            let inner = match delimit_str(content) {
                Ok(s) => s,
                Err(e) => {
                    return Err(e);
                },
            };
            let mut contents = inner.as_bytes_vec();
            let ghost raw = contents@;
            contents.push(0u8);
            proof {
                assert(contents@ =~= raw + seq![0u8]);
            }
            Ok(Data { contents, dt: DType::ZTerminatedString, tagname })
        } else if str_eq(dt_pre, "ascii") {
            let inner = match delimit_str(content) {
                Ok(s) => s,
                Err(e) => {
                    return Err(e);
                },
            };
            let contents = inner.as_bytes_vec();
            Ok(Data { contents, dt: DType::String, tagname })
        } else if str_eq(dt_pre, "space") {
            match parse_int_hex_or_dec(content) {
                Ok(v) => Ok(Data { contents: zero_bytes(v), dt: DType::Space, tagname }),
                Err(e) => Err(e),
            }
        } else {
            Err(SyntaxError::UnknownDataType(String::from_str(dt_pre)))
        }
    }
}

} // verus!
