//! Text helpers: decimal rendering of fixed-point scores, substring search
//! for artifact filenames, and lowercase folding.

use vstd::prelude::*;
use vstd::string::*;

verus! {

/// The Unicode lowercase folding of a character sequence.
pub uninterp spec fn lower_of(s: Seq<char>) -> Seq<char>;

/// Relies on `str::to_lowercase` of std: the result depends on the characters
/// alone.
#[verifier::external_body]
pub(crate) fn lowercase(s: &str) -> (r: String)
    ensures
        r@ == lower_of(s@),
{
    s.to_lowercase()
}

/// The decimal digit character for a value below ten.
pub open spec fn digit_char(d: int) -> char {
    if d == 0 {
        '0'
    } else if d == 1 {
        '1'
    } else if d == 2 {
        '2'
    } else if d == 3 {
        '3'
    } else if d == 4 {
        '4'
    } else if d == 5 {
        '5'
    } else if d == 6 {
        '6'
    } else if d == 7 {
        '7'
    } else if d == 8 {
        '8'
    } else {
        '9'
    }
}

/// The decimal rendering of a natural number, most significant digit first,
/// without leading zeros (a lone zero for zero).
pub open spec fn dec_str(n: nat) -> Seq<char>
    decreases n,
{
    if n < 10 {
        seq![digit_char(n as int)]
    } else {
        dec_str(n / 10) + seq![digit_char((n % 10) as int)]
    }
}

/// A one-character string for a decimal digit.
fn digit_string(d: u64) -> (r: String)
    requires
        d < 10,
    ensures
        r@ =~= seq![digit_char(d as int)],
{
    proof {
        reveal_strlit("0");
        reveal_strlit("1");
        reveal_strlit("2");
        reveal_strlit("3");
        reveal_strlit("4");
        reveal_strlit("5");
        reveal_strlit("6");
        reveal_strlit("7");
        reveal_strlit("8");
        reveal_strlit("9");
    }
    if d == 0 {
        String::from_str("0")
    } else if d == 1 {
        String::from_str("1")
    } else if d == 2 {
        String::from_str("2")
    } else if d == 3 {
        String::from_str("3")
    } else if d == 4 {
        String::from_str("4")
    } else if d == 5 {
        String::from_str("5")
    } else if d == 6 {
        String::from_str("6")
    } else if d == 7 {
        String::from_str("7")
    } else if d == 8 {
        String::from_str("8")
    } else {
        String::from_str("9")
    }
}

/// Renders a natural number in decimal.
pub fn u64_to_string(n: u64) -> (r: String)
    ensures
        r@ == dec_str(n as nat),
    decreases n,
{
    if n < 10 {
        let r = digit_string(n);
        proof {
            assert(r@ == dec_str(n as nat));
        }
        r
    } else {
        proof {
            assert(n / 10 < n) by (nonlinear_arith)
                requires
                    n >= 10,
            ;
        }
        let mut s = u64_to_string(n / 10);
        let d = digit_string(n % 10);
        s.append(d.as_str());
        proof {
            assert(s@ =~= dec_str((n / 10) as nat) + seq![digit_char((n % 10) as int)]);
        }
        s
    }
}

/// The magnitude of a fixed-point score, in thousandths.
pub open spec fn score_mag(milli: int) -> nat {
    if milli < 0 {
        (-milli) as nat
    } else {
        milli as nat
    }
}

/// The display rendering of a fixed-point score (thousandths): an optional
/// sign, the whole part, a point, and exactly two fraction digits, the
/// thousandth rounded half away from zero.
pub open spec fn score_str(milli: int) -> Seq<char> {
    let centi = (score_mag(milli) + 5) / 10;
    let sign: Seq<char> = if milli < 0 {
        seq!['-']
    } else {
        Seq::empty()
    };
    sign + dec_str(centi / 100) + seq!['.'] + seq![
        digit_char(((centi / 10) % 10) as int),
        digit_char((centi % 10) as int),
    ]
}

/// Renders a fixed-point score (thousandths) with two fraction digits.
pub fn score_milli_to_string(milli: i64) -> (r: String)
    ensures
        r@ == score_str(milli as int),
{
    proof {
        reveal_strlit("-");
        reveal_strlit(".");
    }
    let mag: u64 = if milli < 0 {
        (-(milli + 1)) as u64 + 1
    } else {
        milli as u64
    };
    proof {
        assert(mag as int == score_mag(milli as int));
    }
    let centi = (mag + 5) / 10;
    let mut s = if milli < 0 {
        String::from_str("-")
    } else {
        String::new()
    };
    let whole = u64_to_string(centi / 100);
    s.append(whole.as_str());
    s.append(".");
    let d1 = digit_string((centi / 10) % 10);
    s.append(d1.as_str());
    let d2 = digit_string(centi % 10);
    s.append(d2.as_str());
    proof {
        assert(s@ =~= score_str(milli as int));
    }
    s
}

/// Whether `needle` occurs as a contiguous run inside `hay`.
pub open spec fn contains_seq(hay: Seq<char>, needle: Seq<char>) -> bool {
    exists|i: int|
        0 <= i <= hay.len() - needle.len() && #[trigger] hay.subrange(i, i + needle.len() as int)
            == needle
}

/// Substring search by direct character comparison.
pub fn contains_str(hay: &str, needle: &str) -> (r: bool)
    ensures
        r == contains_seq(hay@, needle@),
{
    let hlen = hay.unicode_len();
    let nlen = needle.unicode_len();
    if nlen > hlen {
        return false;
    }
    let mut i: usize = 0;
    while i <= hlen - nlen
        invariant
            hlen == hay@.len(),
            nlen == needle@.len(),
            nlen <= hlen,
            i <= hlen - nlen + 1,
            forall|ii: int|
                0 <= ii < i ==> #[trigger] hay@.subrange(ii, ii + nlen as int) != needle@,
        decreases hlen - nlen - i + 1,
    {
        let mut j: usize = 0;
        let mut matched = true;
        while j < nlen
            invariant
                hlen == hay@.len(),
                nlen == needle@.len(),
                i + nlen <= hlen,
                j <= nlen,
                matched ==> forall|jj: int| 0 <= jj < j ==> hay@[i + jj] == needle@[jj],
                !matched ==> hay@.subrange(i as int, i + nlen as int) != needle@,
            decreases nlen - j,
        {
            if hay.get_char(i + j) != needle.get_char(j) {
                proof {
                    assert(hay@.subrange(i as int, i + nlen as int)[j as int] == hay@[i + j]);
                }
                matched = false;
                j = nlen;
            } else {
                j += 1;
            }
        }
        if matched {
            proof {
                assert(hay@.subrange(i as int, i + nlen as int) =~= needle@);
            }
            return true;
        }
        proof {
            if nlen == 0 {
                assert(hay@.subrange(i as int, i + nlen as int) =~= needle@);
            }
            assert(nlen >= 1);
        }
        i += 1;
    }
    proof {
        assert forall|k: int| 0 <= k <= hlen - nlen implies #[trigger] hay@.subrange(
            k,
            k + nlen as int,
        ) != needle@ by {
            assert(k < i);
        }
    }
    false
}

/// Whether a filename marks a previously generated visualization artifact,
/// to be skipped when loading reference images.
pub fn is_visualization_artifact(filename: &str) -> (r: bool)
    ensures
        r == contains_seq(filename@, "_visualize"@),
{
    contains_str(filename, "_visualize")
}

/// The filename for the annotated copy of an image: the stem, the artifact
/// marker, and the original extension.
pub fn visualize_file_name(stem: &str, ext: &str) -> (r: String)
    ensures
        r@ == stem@ + "_visualize."@ + ext@,
{
    let mut s = stem.to_owned();
    s.append("_visualize.");
    s.append(ext);
    proof {
        assert(s@ =~= stem@ + "_visualize."@ + ext@);
    }
    s
}

} // verus!
