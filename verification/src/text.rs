//! Text and name helpers: relative-path joining over raw name bytes, the
//! synthesized overlay file names, UTF-8 decoding for the header's title
//! strings, and whitespace trimming.
//!
//! Stored file and directory names are raw bytes and need not be valid
//! text, so paths are byte sequences joined with `/`; only the boot
//! header's title fields are decoded as UTF-8 and trimmed.

use vstd::prelude::*;
use vstd::string::StrSliceExecFns;

verus! {

/// Joining a relative path component: the base, a `/` separator, then the
/// component; a component under the empty base is the component itself.
pub open spec fn spec_path_join(base: Seq<u8>, name: Seq<u8>) -> Seq<u8> {
    if base.len() == 0 {
        name
    } else {
        base + seq![0x2f] + name
    }
}

/// Joins the raw name `name` onto the relative path `base` with a `/`
/// separator.
pub fn path_join(base: &[u8], name: &[u8]) -> (r: Vec<u8>)
    ensures
        r@ == spec_path_join(base@, name@),
{
    if base.len() == 0 {
        return vstd::slice::slice_to_vec(name);
    }
    let mut v = vstd::slice::slice_to_vec(base);
    v.push(0x2f);
    let n = name.len();
    let mut i: usize = 0;
    while i < n
        invariant
            n == name@.len(),
            i <= n,
            v@ == base@ + seq![0x2f] + name@.take(i as int),
        decreases n - i,
    {
        v.push(name[i]);
        proof {
            assert(v@ =~= base@ + seq![0x2f] + name@.take(i as int + 1));
        }
        i = i + 1;
    }
    proof {
        assert(name@.take(n as int) =~= name@);
    }
    v
}

/// Decodes a title field.  Relies on `String::from_utf8`: it succeeds with
/// the decoded characters exactly when the bytes are valid UTF-8, as
/// `vstd::utf8` defines validity and decoding.
#[verifier::external_body]
pub fn decode_name(v: Vec<u8>) -> (r: Option<String>)
    ensures
        r is Some <==> vstd::utf8::valid_utf8(v@),
        r is Some ==> r.unwrap()@ == vstd::utf8::decode_utf8(v@),
{
    String::from_utf8(v).ok()
}

/// Whether a character counts as whitespace for trimming: the fixed set of
/// characters with the Unicode `White_Space` property.
pub open spec fn is_unicode_space(c: char) -> bool {
    ||| c == '\u{0009}'
    ||| c == '\u{000A}'
    ||| c == '\u{000B}'
    ||| c == '\u{000C}'
    ||| c == '\u{000D}'
    ||| c == '\u{0020}'
    ||| c == '\u{0085}'
    ||| c == '\u{00A0}'
    ||| c == '\u{1680}'
    ||| c == '\u{2000}'
    ||| c == '\u{2001}'
    ||| c == '\u{2002}'
    ||| c == '\u{2003}'
    ||| c == '\u{2004}'
    ||| c == '\u{2005}'
    ||| c == '\u{2006}'
    ||| c == '\u{2007}'
    ||| c == '\u{2008}'
    ||| c == '\u{2009}'
    ||| c == '\u{200A}'
    ||| c == '\u{2028}'
    ||| c == '\u{2029}'
    ||| c == '\u{202F}'
    ||| c == '\u{205F}'
    ||| c == '\u{3000}'
}

/// Relies on `char::is_whitespace`: true exactly on characters with the
/// Unicode `White_Space` property, the fixed set `is_unicode_space` lists.
pub assume_specification[ char::is_whitespace ](c: char) -> (r: bool)
    ensures
        r == is_unicode_space(c),
;

/// `s` with every leading whitespace character removed.
pub open spec fn spec_trim_front(s: Seq<char>) -> Seq<char>
    decreases s.len(),
{
    if s.len() == 0 {
        s
    } else if is_unicode_space(s[0]) {
        spec_trim_front(s.drop_first())
    } else {
        s
    }
}

/// `s` with every trailing whitespace character removed.
pub open spec fn spec_trim_back(s: Seq<char>) -> Seq<char>
    decreases s.len(),
{
    if s.len() == 0 {
        s
    } else if is_unicode_space(s[s.len() - 1]) {
        spec_trim_back(s.drop_last())
    } else {
        s
    }
}

/// `s` with leading and trailing whitespace removed.
pub open spec fn spec_trim(s: Seq<char>) -> Seq<char> {
    spec_trim_back(spec_trim_front(s))
}

proof fn lemma_trim_front_skip(s: Seq<char>, i: int)
    requires
        0 <= i <= s.len(),
        forall|j: int| 0 <= j < i ==> is_unicode_space(s[j]),
    ensures
        spec_trim_front(s) == spec_trim_front(s.skip(i)),
    decreases i,
{
    if i > 0 {
        assert(s.skip(0) =~= s);
        assert(spec_trim_front(s) == spec_trim_front(s.drop_first()));
        assert(s.drop_first() =~= s.skip(1));
        lemma_trim_front_skip(s.skip(1), i - 1);
        assert(s.skip(1).skip(i - 1) =~= s.skip(i));
    } else {
        assert(s.skip(0) =~= s);
    }
}

proof fn lemma_trim_back_take(s: Seq<char>, i: int)
    requires
        0 <= i <= s.len(),
        forall|j: int| i <= j < s.len() ==> is_unicode_space(s[j]),
    ensures
        spec_trim_back(s) == spec_trim_back(s.take(i)),
    decreases s.len() - i,
{
    if i < s.len() {
        assert(spec_trim_back(s) == spec_trim_back(s.drop_last()));
        assert(s.drop_last() =~= s.take(s.len() - 1));
        lemma_trim_back_take(s.take(s.len() - 1), i);
        assert(s.take(s.len() - 1).take(i) =~= s.take(i));
    } else {
        assert(s.take(i) =~= s);
    }
}

/// Removes leading and trailing whitespace, exactly as `spec_trim` states.
pub fn trim_chars(s: &str) -> (r: String)
    ensures
        r@ == spec_trim(s@),
{
    let n = s.unicode_len();
    let mut lo: usize = 0;
    while lo < n && s.get_char(lo).is_whitespace()
        invariant
            n == s@.len(),
            lo <= n,
            forall|j: int| 0 <= j < lo ==> is_unicode_space(s@[j]),
        decreases n - lo,
    {
        lo = lo + 1;
    }
    proof {
        lemma_trim_front_skip(s@, lo as int);
    }
    if lo == n {
        proof {
            assert(s@.skip(lo as int) =~= Seq::<char>::empty());
            assert(spec_trim_front(s@).len() == 0);
            assert(spec_trim(s@) =~= Seq::<char>::empty());
        }
        return String::new();
    }
    // s@[lo] is not whitespace, so the front-trimmed sequence is s@.skip(lo).
    let mut hi: usize = n;
    while hi > lo + 1 && s.get_char(hi - 1).is_whitespace()
        invariant
            n == s@.len(),
            lo < hi <= n,
            !is_unicode_space(s@[lo as int]),
            forall|j: int| hi <= j < n ==> is_unicode_space(s@[j]),
        decreases hi,
    {
        hi = hi - 1;
    }
    // Either s@[hi-1] is not whitespace, or hi == lo + 1 and the character
    // at lo is not whitespace either way.
    let r = s.substring_char(lo, hi).to_owned();
    proof {
        let t = s@.skip(lo as int);
        assert(spec_trim_front(s@) == t);
        lemma_trim_back_take(t, (hi - lo) as int);
        assert(t.take((hi - lo) as int) =~= s@.subrange(lo as int, hi as int));
        let u = s@.subrange(lo as int, hi as int);
        assert(!is_unicode_space(u[u.len() - 1]) || u.len() == 1);
        if u.len() == 1 {
            assert(u[0] == s@[lo as int]);
            assert(spec_trim_back(u) =~= u);
        } else {
            assert(spec_trim_back(u) == u);
        }
        assert(r@ == spec_trim(s@));
    }
    r
}

/// The byte for the decimal digit `d`.
pub open spec fn dec_digit(d: int) -> u8
    recommends
        0 <= d <= 9,
{
    (0x30 + d) as u8
}

/// The decimal rendering of `id` padded with zeroes to at least four
/// digits: four digits below 10000, the five plain digits otherwise.
pub open spec fn spec_decimal_04(id: u16) -> Seq<u8> {
    if id < 10000 {
        seq![
            dec_digit(id as int / 1000),
            dec_digit((id as int / 100) % 10),
            dec_digit((id as int / 10) % 10),
            dec_digit(id as int % 10),
        ]
    } else {
        seq![
            dec_digit(id as int / 10000),
            dec_digit((id as int / 1000) % 10),
            dec_digit((id as int / 100) % 10),
            dec_digit((id as int / 10) % 10),
            dec_digit(id as int % 10),
        ]
    }
}

/// The synthesized name of the overlay with ID `id`.
pub open spec fn spec_overlay_name(id: u16) -> Seq<u8> {
    seq![0x6f, 0x76, 0x65, 0x72, 0x6c, 0x61, 0x79, 0x5f] + spec_decimal_04(id)
}

/// Builds the name `overlay_NNNN` for overlay `id`, zero-padded to at
/// least four decimal digits.
pub fn overlay_name(id: u16) -> (r: Vec<u8>)
    ensures
        r@ == spec_overlay_name(id),
{
    let mut v: Vec<u8> = Vec::new();
    v.push(0x6f);
    v.push(0x76);
    v.push(0x65);
    v.push(0x72);
    v.push(0x6c);
    v.push(0x61);
    v.push(0x79);
    v.push(0x5f);
    if id >= 10000 {
        v.push(0x30 + (id / 10000) as u8);
        v.push(0x30 + ((id / 1000) % 10) as u8);
    } else {
        v.push(0x30 + (id / 1000) as u8);
    }
    v.push(0x30 + ((id / 100) % 10) as u8);
    v.push(0x30 + ((id / 10) % 10) as u8);
    v.push(0x30 + (id % 10) as u8);
    proof {
        if id < 10000 {
            assert(v@ =~= spec_overlay_name(id));
        } else {
            assert(v@ =~= spec_overlay_name(id));
        }
    }
    v
}

} // verus!
