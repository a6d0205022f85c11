//! The textual preprocessor: lower-cases the source, rewrites register
//! mnemonics and `offset(base)` addressing into comma-separated operand
//! lists, strips comments, and classifies each line as an instruction, a
//! label, a segment marker or a line to ignore.

use vstd::prelude::*;

use crate::errors::SyntaxError;
use crate::relf_headers::Sections;
use crate::strutil::find_char;
use crate::strutil::find_str;
use crate::strutil::first_delim;
use crate::strutil::hex_or_dec_u32_spec;
use crate::strutil::ascii_lowercase;
use crate::strutil::lemma_first_delim_at;
use crate::strutil::lower_seq;
use crate::strutil::parse_hex_or_dec_u32;
use crate::strutil::replace_seq;
use crate::strutil::replace_str;
use crate::strutil::split_any;
use crate::strutil::split_spec;
use crate::strutil::trim;
use crate::strutil::trim_spec;

verus! {

/// The classification of one source line.
#[derive(Debug)]
pub enum LineTag {
    /// A normalized instruction line.
    Processed(String),
    /// A label; in the data segment the same line also carries the data
    /// directive.
    Tag(String),
    /// A comment, a blank line or a line already consumed.
    Ignore,
    /// A `.text`/`.data` marker: the segment's base address and kind.
    SectionStart(u32, Sections),
}

/// The spec-level classification of one line, `Bad` standing for a line
/// the preprocessor cannot read.
pub ghost enum LineTagSpec {
    Processed(Seq<char>),
    Tag(Seq<char>),
    Ignore,
    SectionStart(u32, Sections),
    Bad,
}

/// Whether an executable classification is the given spec-level one.
pub open spec fn line_tag_matches(t: LineTag, s: LineTagSpec) -> bool {
    match t {
        LineTag::Processed(p) => s matches LineTagSpec::Processed(q) && p@ == q,
        LineTag::Tag(p) => s matches LineTagSpec::Tag(q) && p@ == q,
        LineTag::Ignore => s == LineTagSpec::Ignore,
        LineTag::SectionStart(a, k) => s == LineTagSpec::SectionStart(a, k),
    }
}

/// Index of the first occurrence of `pat` in `s`, or `-1`.
pub open spec fn index_of_seq(s: Seq<char>, pat: Seq<char>) -> int
    decreases s.len(),
{
    if s.len() < pat.len() {
        -1
    } else if s.subrange(0, pat.len() as int) == pat {
        0
    } else if s.len() == 0 {
        -1
    } else {
        let r = index_of_seq(s.skip(1), pat);
        if r < 0 {
            -1
        } else {
            1 + r
        }
    }
}

/// `index_of_seq` is the unique index left of which `pat` does not match.
pub proof fn lemma_index_of_seq_at(s: Seq<char>, pat: Seq<char>, i: int)
    requires
        0 <= i,
        i + pat.len() <= s.len(),
        s.subrange(i, i + pat.len() as int) == pat,
        forall|j: int| 0 <= j < i ==> #[trigger] s.subrange(j, j + pat.len() as int) != pat,
    ensures
        index_of_seq(s, pat) == i,
    decreases i,
{
    if i == 0 {
    } else {
        assert(s.subrange(0, 0 + pat.len() as int) != pat);
        let t = s.skip(1);
        assert(t.subrange(i - 1, i - 1 + pat.len() as int) =~= s.subrange(i, i + pat.len() as int));
        assert forall|j: int| 0 <= j < i - 1 implies #[trigger] t.subrange(j, j + pat.len() as int)
            != pat by {
            assert(t.subrange(j, j + pat.len() as int) =~= s.subrange(
                j + 1,
                j + 1 + pat.len() as int,
            ));
        }
        lemma_index_of_seq_at(t, pat, i - 1);
    }
}

/// When `pat` matches nowhere in `s`, `index_of_seq` is `-1`.
pub proof fn lemma_index_of_seq_none(s: Seq<char>, pat: Seq<char>)
    requires
        pat.len() > 0,
        forall|j: int|
            0 <= j && j + pat.len() <= s.len() ==> #[trigger] s.subrange(j, j + pat.len() as int)
                != pat,
    ensures
        index_of_seq(s, pat) == -1,
    decreases s.len(),
{
    if s.len() < pat.len() {
    } else {
        assert(s.subrange(0, 0 + pat.len() as int) != pat);
        let t = s.skip(1);
        assert forall|j: int| 0 <= j && j + pat.len() <= t.len() implies #[trigger] t.subrange(
            j,
            j + pat.len() as int,
        ) != pat by {
            assert(t.subrange(j, j + pat.len() as int) =~= s.subrange(
                j + 1,
                j + 1 + pat.len() as int,
            ));
        }
        lemma_index_of_seq_none(t, pat);
    }
}

/// The register-mnemonic and separator rewriting applied to one trimmed,
/// lower-cased line.
pub open spec fn normalize_spec(l: Seq<char>) -> Seq<char> {
    let p = trim_spec(l);
    let p = replace_seq(p, "  "@, ","@);
    let p = replace_seq(p, ", "@, ","@);
    let p = replace_seq(p, " ,"@, ","@);
    let p = replace_seq(p, "$0"@, "0"@);
    let p = replace_seq(p, "$zero"@, "0"@);
    let p = replace_seq(p, "$at"@, "1"@);
    let p = replace_seq(p, "$v0"@, "2"@);
    let p = replace_seq(p, "$v1"@, "3"@);
    let p = replace_seq(p, "$a0"@, "4"@);
    let p = replace_seq(p, "$a1"@, "5"@);
    let p = replace_seq(p, "$a2"@, "6"@);
    let p = replace_seq(p, "$a3"@, "7"@);
    let p = replace_seq(p, "$t0"@, "8"@);
    let p = replace_seq(p, "$t1"@, "9"@);
    let p = replace_seq(p, "$t2"@, "10"@);
    let p = replace_seq(p, "$t3"@, "11"@);
    let p = replace_seq(p, "$t4"@, "12"@);
    let p = replace_seq(p, "$t5"@, "13"@);
    let p = replace_seq(p, "$t6"@, "14"@);
    let p = replace_seq(p, "$t7"@, "15"@);
    let p = replace_seq(p, "$s0"@, "16"@);
    let p = replace_seq(p, "$s1"@, "17"@);
    let p = replace_seq(p, "$s2"@, "18"@);
    let p = replace_seq(p, "$s3"@, "19"@);
    let p = replace_seq(p, "$s4"@, "20"@);
    let p = replace_seq(p, "$s5"@, "21"@);
    let p = replace_seq(p, "$s6"@, "22"@);
    let p = replace_seq(p, "$s7"@, "23"@);
    let p = replace_seq(p, "$t8"@, "24"@);
    let p = replace_seq(p, "$t9"@, "25"@);
    let p = replace_seq(p, "$k0"@, "26"@);
    let p = replace_seq(p, "$k1"@, "27"@);
    let p = replace_seq(p, "$gp"@, "28"@);
    let p = replace_seq(p, "$sp"@, "29"@);
    let p = replace_seq(p, "$s8"@, "30"@);
    let p = replace_seq(p, "$fp"@, "30"@);
    replace_seq(p, "$ra"@, "31"@)
}

/// What classifying one lower-cased source line yields.
pub open spec fn digest_line_spec(el: Seq<char>) -> LineTagSpec {
    let p0 = normalize_spec(el);
    let ci = first_delim(p0, '#', '#');
    let p = if ci < p0.len() {
        p0.subrange(0, ci)
    } else {
        p0
    };
    if p.len() == 0 {
        LineTagSpec::Ignore
    } else if index_of_seq(p, ".text"@) >= 0 {
        let cand = trim_spec(p.skip(index_of_seq(p, ".text"@) + ".text"@.len()));
        match hex_or_dec_u32_spec(cand) {
            Some(a) => LineTagSpec::SectionStart(a, Sections::Code),
            None => LineTagSpec::Bad,
        }
    } else if index_of_seq(p, ".data"@) >= 0 {
        let cand = trim_spec(p.skip(index_of_seq(p, ".data"@) + ".data"@.len()));
        match hex_or_dec_u32_spec(cand) {
            Some(a) => LineTagSpec::SectionStart(a, Sections::Data),
            None => LineTagSpec::Bad,
        }
    } else if first_delim(p, ':', ':') < p.len() {
        LineTagSpec::Tag(p.subrange(0, first_delim(p, ':', ':')))
    } else if first_delim(p, '(', '(') < p.len() {
        let l = first_delim(p, '(', '(');
        if first_delim(p, ')', ')') < p.len() {
            let r = first_delim(p, ')', ')');
            if r < l + 1 {
                LineTagSpec::Bad
            } else {
                let mid = p.subrange(l + 1, r);
                let head = p.subrange(0, l);
                let c = first_delim(head, ',', ',');
                if c < head.len() {
                    LineTagSpec::Processed(
                        head.subrange(0, c) + ","@ + mid + head.subrange(c, head.len() as int),
                    )
                } else {
                    LineTagSpec::Bad
                }
            }
        } else {
            LineTagSpec::Bad
        }
    } else {
        LineTagSpec::Processed(p)
    }
}

/// Applies the separator and register-mnemonic rewriting to one line.
fn normalize_line(el: &str) -> (r: String)
    ensures
        r@ == normalize_spec(el@),
{
    proof {
        reveal_strlit("  ");
        reveal_strlit(", ");
        reveal_strlit(" ,");
        reveal_strlit("$0");
        reveal_strlit("$zero");
        reveal_strlit("$at");
        reveal_strlit("$v0");
        reveal_strlit("$v1");
        reveal_strlit("$a0");
        reveal_strlit("$a1");
        reveal_strlit("$a2");
        reveal_strlit("$a3");
        reveal_strlit("$t0");
        reveal_strlit("$t1");
        reveal_strlit("$t2");
        reveal_strlit("$t3");
        reveal_strlit("$t4");
        reveal_strlit("$t5");
        reveal_strlit("$t6");
        reveal_strlit("$t7");
        reveal_strlit("$s0");
        reveal_strlit("$s1");
        reveal_strlit("$s2");
        reveal_strlit("$s3");
        reveal_strlit("$s4");
        reveal_strlit("$s5");
        reveal_strlit("$s6");
        reveal_strlit("$s7");
        reveal_strlit("$t8");
        reveal_strlit("$t9");
        reveal_strlit("$k0");
        reveal_strlit("$k1");
        reveal_strlit("$gp");
        reveal_strlit("$sp");
        reveal_strlit("$s8");
        reveal_strlit("$fp");
        reveal_strlit("$ra");
    }
    let p = trim(el);
    let p = replace_str(p, "  ", ",");
    let p = replace_str(p.as_str(), ", ", ",");
    let p = replace_str(p.as_str(), " ,", ",");
    let p = replace_str(p.as_str(), "$0", "0");
    let p = replace_str(p.as_str(), "$zero", "0");
    let p = replace_str(p.as_str(), "$at", "1");
    let p = replace_str(p.as_str(), "$v0", "2");
    let p = replace_str(p.as_str(), "$v1", "3");
    let p = replace_str(p.as_str(), "$a0", "4");
    let p = replace_str(p.as_str(), "$a1", "5");
    let p = replace_str(p.as_str(), "$a2", "6");
    let p = replace_str(p.as_str(), "$a3", "7");
    let p = replace_str(p.as_str(), "$t0", "8");
    let p = replace_str(p.as_str(), "$t1", "9");
    let p = replace_str(p.as_str(), "$t2", "10");
    let p = replace_str(p.as_str(), "$t3", "11");
    let p = replace_str(p.as_str(), "$t4", "12");
    let p = replace_str(p.as_str(), "$t5", "13");
    let p = replace_str(p.as_str(), "$t6", "14");
    let p = replace_str(p.as_str(), "$t7", "15");
    let p = replace_str(p.as_str(), "$s0", "16");
    let p = replace_str(p.as_str(), "$s1", "17");
    let p = replace_str(p.as_str(), "$s2", "18");
    let p = replace_str(p.as_str(), "$s3", "19");
    let p = replace_str(p.as_str(), "$s4", "20");
    let p = replace_str(p.as_str(), "$s5", "21");
    let p = replace_str(p.as_str(), "$s6", "22");
    let p = replace_str(p.as_str(), "$s7", "23");
    let p = replace_str(p.as_str(), "$t8", "24");
    let p = replace_str(p.as_str(), "$t9", "25");
    let p = replace_str(p.as_str(), "$k0", "26");
    let p = replace_str(p.as_str(), "$k1", "27");
    let p = replace_str(p.as_str(), "$gp", "28");
    let p = replace_str(p.as_str(), "$sp", "29");
    let p = replace_str(p.as_str(), "$s8", "30");
    let p = replace_str(p.as_str(), "$fp", "30");
    replace_str(p.as_str(), "$ra", "31")
}

/// Reads the base address following a segment marker.
fn section_start(pl: &str, idx: usize, kind: Sections) -> (r: Result<LineTag, SyntaxError>)
    requires
        idx + 5 <= pl@.len(),
    ensures
        match r {
            Ok(t) => match hex_or_dec_u32_spec(trim_spec(pl@.skip(idx + 5))) {
                Some(a) => t == LineTag::SectionStart(a, kind),
                None => false,
            },
            Err(_) => hex_or_dec_u32_spec(trim_spec(pl@.skip(idx + 5))) is None,
        },
{
    let n = pl.unicode_len();
    let tail = pl.substring_char(idx + 5, n);
    proof {
        assert(tail@ =~= pl@.skip(idx + 5));
    }
    let cand = trim(tail);
    match parse_hex_or_dec_u32(cand) {
        Some(a) => Ok(LineTag::SectionStart(a, kind)),
        None => Err(SyntaxError::BadNumber(String::from_str(cand))),
    }
}

/// Classifies one lower-cased line.
fn digest_line(el: &str) -> (r: Result<LineTag, SyntaxError>)
    ensures
        match r {
            Ok(t) => line_tag_matches(t, digest_line_spec(el@)),
            Err(_) => digest_line_spec(el@) is Bad,
        },
{
    proof {
        reveal_strlit(".text");
        reveal_strlit(".data");
    }
    let normalized = normalize_line(el);
    let pl: String = match find_char(normalized.as_str(), '#') {
        Some(idx) => {
            proof {
                lemma_first_delim_at(normalized@, '#', '#', idx as int);
            }
            String::from_str(normalized.as_str().substring_char(0, idx))
        },
        None => {
            proof {
                lemma_first_delim_at(normalized@, '#', '#', normalized@.len() as int);
            }
            normalized
        },
    };
    let n = pl.as_str().unicode_len();
    if n == 0 {
        return Ok(LineTag::Ignore);
    }
    match find_str(pl.as_str(), ".text") {
        Some(idx) => {
            proof {
                lemma_index_of_seq_at(pl@, ".text"@, idx as int);
            }
            return section_start(pl.as_str(), idx, Sections::Code);
        },
        None => {
            proof {
                lemma_index_of_seq_none(pl@, ".text"@);
            }
        },
    }
    match find_str(pl.as_str(), ".data") {
        Some(idx) => {
            proof {
                lemma_index_of_seq_at(pl@, ".data"@, idx as int);
            }
            return section_start(pl.as_str(), idx, Sections::Data);
        },
        None => {
            proof {
                lemma_index_of_seq_none(pl@, ".data"@);
            }
        },
    }
    match find_char(pl.as_str(), ':') {
        Some(idx) => {
            proof {
                lemma_first_delim_at(pl@, ':', ':', idx as int);
            }
            return Ok(LineTag::Tag(String::from_str(pl.as_str().substring_char(0, idx))));
        },
        None => {
            proof {
                lemma_first_delim_at(pl@, ':', ':', pl@.len() as int);
            }
        },
    }
    match find_char(pl.as_str(), '(') {
        Some(l) => {
            proof {
                lemma_first_delim_at(pl@, '(', '(', l as int);
            }
            match find_char(pl.as_str(), ')') {
                Some(rr) => {
                    proof {
                        lemma_first_delim_at(pl@, ')', ')', rr as int);
                    }
                    if rr < l + 1 {
                        return Err(SyntaxError::MalformedLine);
                    }
                    let mid = pl.as_str().substring_char(l + 1, rr);
                    let head = pl.as_str().substring_char(0, l);
                    match find_char(head, ',') {
                        Some(c) => {
                            proof {
                                lemma_first_delim_at(head@, ',', ',', c as int);
                            }
                            let mut tmp = String::from_str(head.substring_char(0, c));
                            tmp.append(",");
                            tmp.append(mid);
                            tmp.append(head.substring_char(c, l));
                            proof {
                                assert(head@.subrange(c as int, head@.len() as int) =~= head@.skip(
                                    c as int,
                                ));
                                assert(tmp@ =~= head@.subrange(0, c as int) + ","@ + mid@
                                    + head@.subrange(c as int, head@.len() as int));
                            }
                            return Ok(LineTag::Processed(tmp));
                        },
                        None => {
                            proof {
                                lemma_first_delim_at(head@, ',', ',', head@.len() as int);
                            }
                            return Err(SyntaxError::MalformedLine);
                        },
                    }
                },
                None => {
                    proof {
                        lemma_first_delim_at(pl@, ')', ')', pl@.len() as int);
                    }
                    return Err(SyntaxError::NoMatchingPair('('));
                },
            }
        },
        None => {
            proof {
                lemma_first_delim_at(pl@, '(', '(', pl@.len() as int);
            }
        },
    }
    Ok(LineTag::Processed(pl))
}

/// Splits the source into lines and classifies each line after lower-
/// casing it; each returned entry carries the line's original text, for
/// diagnostics. The first unreadable line aborts with its error.
pub fn digest(text: &str) -> (r: Result<Vec<(String, LineTag)>, SyntaxError>)
    ensures
        match r {
            Ok(v) => {
                let lines = split_spec(text@, '\n', '\n');
                &&& v@.len() == lines.len()
                &&& forall|k: int|
                    0 <= k < v@.len() ==> (#[trigger] v@[k]).0@ == lines[k] && line_tag_matches(
                        v@[k].1,
                        digest_line_spec(lower_seq(lines[k])),
                    )
            },
            Err(_) => exists|k: int|
                0 <= k < split_spec(text@, '\n', '\n').len() && (#[trigger] digest_line_spec(
                    lower_seq(split_spec(text@, '\n', '\n')[k]),
                )) is Bad,
        },
{
    let lines = split_any(text, '\n', '\n');
    let mut out: Vec<(String, LineTag)> = Vec::new();
    let n = lines.len();
    let mut i: usize = 0;
    while i < n
        invariant
            i <= n,
            n == lines@.len(),
            n == split_spec(text@, '\n', '\n').len(),
            forall|k: int|
                0 <= k < n ==> (#[trigger] lines@[k])@ == split_spec(text@, '\n', '\n')[k],
            out@.len() == i,
            forall|k: int|
                0 <= k < i ==> (#[trigger] out@[k]).0@ == split_spec(text@, '\n', '\n')[k]
                    && line_tag_matches(
                    out@[k].1,
                    digest_line_spec(lower_seq(split_spec(text@, '\n', '\n')[k])),
                ),
        decreases n - i,
    {
        let line = lines[i].as_str();
        let lowered = ascii_lowercase(line);
        let tag = match digest_line(lowered.as_str()) {
            Ok(t) => t,
            Err(e) => {
                proof {
                    assert(digest_line_spec(
                        lower_seq(split_spec(text@, '\n', '\n')[i as int]),
                    ) is Bad);
                }
                return Err(e);
            },
        };
        out.push((String::from_str(line), tag));
        i += 1;
    }
    Ok(out)
}

} // verus!
