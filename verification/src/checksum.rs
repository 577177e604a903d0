//! Checksums of migration scripts: the CRC32 of the content after CRLF -> LF
//! normalization, reinterpreted as a signed 32-bit integer. The signed value
//! is what is stored in the history table and compared on later runs.
use vstd::prelude::*;

verus! {

/// The CRC32 of the UTF-8 encoding of a character sequence.
pub uninterp spec fn crc32_of(s: Seq<char>) -> u32;

/// Relies on crc32fast::hash: the CRC32 of the string's bytes, a pure
/// function of the characters alone.
#[verifier::external_body]
pub(crate) fn crc32_str(s: &str) -> (r: u32)
    ensures
        r == crc32_of(s@),
{
    crc32fast::hash(s.as_bytes())
}

/// The value of an unsigned 32-bit checksum reinterpreted as a signed
/// 32-bit integer in two's complement.
pub open spec fn spec_u32_as_i32(x: u32) -> int {
    if x < 0x8000_0000 {
        x as int
    } else {
        x as int - 0x1_0000_0000
    }
}

/// Reinterprets an unsigned 32-bit checksum as a signed 32-bit integer
/// in two's complement.
pub fn u32_as_i32(x: u32) -> (r: i32)
    ensures
        r as int == spec_u32_as_i32(x),
{
    if x <= 0x7fff_ffff {
        x as i32
    } else {
        let y: u32 = x - 0x8000_0000;
        (y as i32) - 0x7fff_ffff - 1
    }
}

/// The content with each CRLF pair replaced by a single LF, scanning left
/// to right over non-overlapping pairs.
pub open spec fn spec_normalize(s: Seq<char>) -> Seq<char>
    decreases s.len(),
{
    if s.len() == 0 {
        Seq::empty()
    } else if s.len() >= 2 && s[0] == '\r' && s[1] == '\n' {
        seq!['\n'] + spec_normalize(s.skip(2))
    } else {
        seq![s[0]] + spec_normalize(s.skip(1))
    }
}

/// The checksum of a migration script: the CRC32 of its content after
/// CRLF -> LF normalization, reinterpreted as a signed 32-bit integer.
pub open spec fn spec_checksum(content: Seq<char>) -> int {
    spec_u32_as_i32(crc32_of(spec_normalize(content)))
}

/// Replaces each CRLF pair by a single LF.
pub fn normalize_line_endings(s: &str) -> (r: String)
    ensures
        r@ == spec_normalize(s@),
{
    let cv = crate::strutil::str_chars(s);
    let mut out: Vec<char> = Vec::new();
    let mut i: usize = 0;
    proof {
        assert(cv@.skip(0) =~= cv@);
    }
    while i < cv.len()
        invariant
            cv@ == s@,
            i <= cv@.len(),
            spec_normalize(s@) == out@ + spec_normalize(cv@.skip(i as int)),
        decreases cv@.len() - i,
    {
        let ghost t = cv@.skip(i as int);
        let ghost out0 = out@;
        assert(t[0] == cv@[i as int]);
        if i + 1 < cv.len() && cv[i] == '\r' && cv[i + 1] == '\n' {
            assert(t[1] == cv@[i as int + 1]);
            out.push('\n');
            i = i + 2;
            proof {
                assert(spec_normalize(t) == seq!['\n'] + spec_normalize(t.skip(2)));
                assert(t.skip(2) =~= cv@.skip(i as int));
                assert(out0 + (seq!['\n'] + spec_normalize(cv@.skip(i as int))) =~= out@
                    + spec_normalize(cv@.skip(i as int)));
            }
        } else {
            out.push(cv[i]);
            i = i + 1;
            proof {
                assert(spec_normalize(t) == seq![t[0]] + spec_normalize(t.skip(1)));
                assert(t.skip(1) =~= cv@.skip(i as int));
                assert(out0 + (seq![t[0]] + spec_normalize(cv@.skip(i as int))) =~= out@
                    + spec_normalize(cv@.skip(i as int)));
            }
        }
    }
    proof {
        assert(cv@.skip(i as int) =~= Seq::<char>::empty());
        assert(spec_normalize(s@) =~= out@);
    }
    crate::strutil::chars_to_string(&out)
}

/// Computes the checksum of a script content: normalizes line endings, then
/// takes the CRC32 as a signed value.
pub fn content_checksum(content: &str) -> (r: i32)
    ensures
        r as int == spec_checksum(content@),
{
    let normalized = normalize_line_endings(content);
    u32_as_i32(crc32_str(normalized.as_str()))
}

/// No CRLF pair occurs in the sequence.
pub open spec fn no_crlf(s: Seq<char>) -> bool {
    forall|i: int| 0 <= i && i + 1 < s.len() ==> !(#[trigger] s[i] == '\r' && s[i + 1] == '\n')
}

/// No two consecutive CR characters occur in the sequence.
pub open spec fn no_double_cr(s: Seq<char>) -> bool {
    forall|i: int| 0 <= i && i + 1 < s.len() ==> !(#[trigger] s[i] == '\r' && s[i + 1] == '\r')
}

proof fn lemma_normalize_first(t: Seq<char>)
    requires
        t.len() > 0,
    ensures
        spec_normalize(t).len() > 0,
        spec_normalize(t)[0] == (if t.len() >= 2 && t[0] == '\r' && t[1] == '\n' {
            '\n'
        } else {
            t[0]
        }),
{
}

proof fn lemma_normalize_of_no_crlf(s: Seq<char>)
    requires
        no_crlf(s),
    ensures
        spec_normalize(s) == s,
    decreases s.len(),
{
    if s.len() == 0 {
        assert(spec_normalize(s) =~= s);
    } else {
        if s.len() >= 2 {
            assert(!(s[0] == '\r' && s[1] == '\n'));
        }
        assert forall|i: int| 0 <= i && i + 1 < s.skip(1).len() implies !(#[trigger] s.skip(1)[i] == '\r'
            && s.skip(1)[i + 1] == '\n') by {
            assert(s.skip(1)[i] == s[i + 1]);
            assert(s.skip(1)[i + 1] == s[i + 2]);
            assert(!(s[i + 1] == '\r' && s[i + 2] == '\n'));
        }
        lemma_normalize_of_no_crlf(s.skip(1));
        assert(spec_normalize(s) =~= s);
    }
}

proof fn lemma_normalize_gives_no_crlf(s: Seq<char>)
    requires
        no_double_cr(s),
    ensures
        no_crlf(spec_normalize(s)),
    decreases s.len(),
{
    if s.len() == 0 {
    } else if s.len() >= 2 && s[0] == '\r' && s[1] == '\n' {
        assert forall|i: int| 0 <= i && i + 1 < s.skip(2).len() implies !(#[trigger] s.skip(2)[i] == '\r'
            && s.skip(2)[i + 1] == '\r') by {
            assert(s.skip(2)[i] == s[i + 2]);
            assert(s.skip(2)[i + 1] == s[i + 3]);
            assert(!(s[i + 2] == '\r' && s[i + 3] == '\r'));
        }
        lemma_normalize_gives_no_crlf(s.skip(2));
        let n = seq!['\n'] + spec_normalize(s.skip(2));
        assert forall|i: int| 0 <= i && i + 1 < n.len() implies !(#[trigger] n[i] == '\r' && n[i + 1] == '\n')
            by {
            if i >= 1 {
                assert(n[i] == spec_normalize(s.skip(2))[i - 1]);
                assert(n[i + 1] == spec_normalize(s.skip(2))[i]);
            }
        }
    } else {
        assert forall|i: int| 0 <= i && i + 1 < s.skip(1).len() implies !(#[trigger] s.skip(1)[i] == '\r'
            && s.skip(1)[i + 1] == '\r') by {
            assert(s.skip(1)[i] == s[i + 1]);
            assert(s.skip(1)[i + 1] == s[i + 2]);
            assert(!(s[i + 1] == '\r' && s[i + 2] == '\r'));
        }
        lemma_normalize_gives_no_crlf(s.skip(1));
        let n = seq![s[0]] + spec_normalize(s.skip(1));
        assert forall|i: int| 0 <= i && i + 1 < n.len() implies !(#[trigger] n[i] == '\r' && n[i + 1] == '\n')
            by {
            if i >= 1 {
                assert(n[i] == spec_normalize(s.skip(1))[i - 1]);
                assert(n[i + 1] == spec_normalize(s.skip(1))[i]);
            } else {
                assert(i == 0);
                if s[0] == '\r' {
                    if s.len() == 1 {
                        assert(n.len() == 1);
                    } else {
                        assert(s[1] != '\n');
                        assert(!(s[0] == '\r' && s[1] == '\r'));
                        assert(s[1] != '\r');
                        lemma_normalize_first(s.skip(1));
                        assert(s.skip(1)[0] == s[1]);
                        if s.skip(1).len() >= 2 && s.skip(1)[0] == '\r' && s.skip(1)[1] == '\n' {
                            assert(false);
                        }
                        assert(n[1] == s[1]);
                    }
                }
            }
        }
    }
}

/// Normalizing an already-normalized content changes nothing, provided the
/// original content has no run of consecutive CR characters.
pub proof fn lemma_normalize_idempotent(s: Seq<char>)
    requires
        no_double_cr(s),
    ensures
        spec_normalize(spec_normalize(s)) == spec_normalize(s),
{
    lemma_normalize_gives_no_crlf(s);
    lemma_normalize_of_no_crlf(spec_normalize(s));
}

/// A script authored with CRLF line endings and the same script with those
/// pairs already replaced by LF have equal checksums, provided the content
/// has no run of consecutive CR characters.
pub proof fn lemma_checksum_crlf_round_trip(content: Seq<char>)
    requires
        no_double_cr(content),
    ensures
        spec_checksum(content) == spec_checksum(spec_normalize(content)),
{
    lemma_normalize_idempotent(content);
}

} // verus!
