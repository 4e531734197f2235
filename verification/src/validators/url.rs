//! The URL shape accepted for frame images: `http` or `https`, `://`, a
//! dotted host whose last label is at least two ASCII letters, and an
//! optional trailing path, query or fragment free of ASCII whitespace.

use vstd::prelude::*;

use crate::text::is_digit_char;

verus! {

/// ASCII letters.
pub open spec fn is_letter_char(c: char) -> bool {
    (97 <= c as u32 && c as u32 <= 122) || (65 <= c as u32 && c as u32 <= 90)
}

/// Characters the host may contain: letters, digits, '_', '.' and '-'.
pub open spec fn is_host_char(c: char) -> bool {
    is_letter_char(c) || is_digit_char(c) || c == '_' || c == '.' || c == '-'
}

/// The characters that end the host and begin the trailing portion.
pub open spec fn is_sep_char(c: char) -> bool {
    c == '/' || c == '?' || c == '#'
}

/// ASCII whitespace, not allowed in the trailing portion.
pub open spec fn is_space_char(c: char) -> bool {
    c == ' ' || c == '\t' || c == '\n' || c == '\r' || c == '\u{b}' || c == '\u{c}'
}

/// A well-formed host: at least one name character, then a dot, then a
/// top-level label of at least two letters.
pub open spec fn host_ok(h: Seq<char>) -> bool {
    exists|j: int|
        #![auto]
        1 <= j && j + 3 <= h.len() && h[j] == '.' && (forall|k: int|
            0 <= k < j ==> is_host_char(h[k])) && (forall|k: int|
            j < k < h.len() ==> is_letter_char(h[k]))
}

/// The portion after the host: empty, or a separator followed by
/// non-whitespace characters.
pub open spec fn tail_ok(t: Seq<char>) -> bool {
    t.len() == 0 || (is_sep_char(t[0]) && forall|k: int| 1 <= k < t.len() ==> !is_space_char(t[k]))
}

/// What follows the scheme: a well-formed host, then a well-formed tail.
pub open spec fn authority_ok(r: Seq<char>) -> bool {
    exists|i: int| #![auto] 0 <= i <= r.len() && host_ok(r.take(i)) && tail_ok(r.skip(i))
}

/// The URL shape accepted for frame images.
pub open spec fn url_ok(s: Seq<char>) -> bool {
    ||| (s.len() >= 7 && s.take(7) == "http://"@ && authority_ok(s.skip(7)))
    ||| (s.len() >= 8 && s.take(8) == "https://"@ && authority_ok(s.skip(8)))
}

fn is_sep(c: char) -> (r: bool)
    ensures
        r == is_sep_char(c),
{
    c == '/' || c == '?' || c == '#'
}

fn is_space(c: char) -> (r: bool)
    ensures
        r == is_space_char(c),
{
    c == ' ' || c == '\t' || c == '\n' || c == '\r' || c == '\u{b}' || c == '\u{c}'
}

fn is_letter(c: char) -> (r: bool)
    ensures
        r == is_letter_char(c),
{
    let u = c as u32;
    (97 <= u && u <= 122) || (65 <= u && u <= 90)
}

fn is_digit(c: char) -> (r: bool)
    ensures
        r == is_digit_char(c),
{
    c == '0' || c == '1' || c == '2' || c == '3' || c == '4' || c == '5' || c == '6' || c == '7'
        || c == '8' || c == '9'
}

fn is_host(c: char) -> (r: bool)
    ensures
        r == is_host_char(c),
{
    is_letter(c) || is_digit(c) || c == '_' || c == '.' || c == '-'
}

/// A separator character is neither a host character nor a letter nor a dot.
proof fn lemma_sep_not_host(c: char)
    requires
        is_sep_char(c),
    ensures
        !is_host_char(c),
        !is_letter_char(c),
        c != '.',
{
}

/// Checks the host and tail portions of `s` after the scheme prefix of
/// length `base`. The split point between host and tail is forced: the host
/// may not contain a separator, and a nonempty tail must start with one.
#[verifier::loop_isolation(false)]
fn check_authority(s: &str, base: usize, len: usize) -> (r: bool)
    requires
        base <= len == s@.len(),
    ensures
        r == authority_ok(s@.skip(base as int)),
{
    let ghost rest = s@.skip(base as int);
    // Find the first separator at or after `base`.
    let mut f: usize = base;
    while f < len && !is_sep(s.get_char(f))
        invariant
            base <= f <= len,
            forall|k: int| base <= k < f ==> !is_sep_char(s@[k]),
        decreases len - f,
    {
        f = f + 1;
    }
    proof {
        assert(f < len ==> is_sep_char(s@[f as int]));
    }
    // The only split authority_ok could use is at f - base.
    let ghost fb = f - base;
    let ghost host = rest.take(fb);
    let ghost tail = rest.skip(fb);
    proof {
        lemma_authority_split(s@, base as int, f as int);
        assert forall|k: int| 0 <= k < host.len() implies host[k] == s@[base + k] by {}
        assert forall|k: int| 0 <= k < tail.len() implies tail[k] == s@[f + k] by {}
    }
    // Find the last dot in the host range [base, f).
    let mut d: usize = base;
    let mut has_dot: bool = false;
    let mut i: usize = base;
    while i < f
        invariant
            base <= i <= f <= len == s@.len(),
            has_dot ==> base <= d < i && s@[d as int] == '.',
            forall|k: int| base <= k < i && s@[k] == '.' ==> has_dot && k <= d,
        decreases f - i,
    {
        if s.get_char(i) == '.' {
            d = i;
            has_dot = true;
        }
        i = i + 1;
    }
    if !has_dot {
        // No dot anywhere in the host: host_ok cannot hold.
        proof {
            assert(!host_ok(host)) by {
                if host_ok(host) {
                    let j = choose|j: int|
                        #![auto]
                        1 <= j && j + 3 <= host.len() && host[j] == '.' && (forall|k: int|
                            0 <= k < j ==> is_host_char(host[k])) && (forall|k: int|
                            j < k < host.len() ==> is_letter_char(host[k]));
                    assert(s@[base + j] == '.');
                }
            }
        }
        return false;
    }
    // The only dot host_ok could use is the last one.
    proof {
        lemma_host_dot(s@, base as int, f as int, d as int);
    }
    let ghost jd = d - base;
    // Check the forced decomposition: name, dot, top-level label.
    if d - base < 1 || f - d < 3 {
        proof {
            assert(!host_ok(host)) by {
                if host_ok(host) {
                    assert(1 <= jd && jd + 3 <= host.len());
                }
            }
        }
        return false;
    }
    let mut i: usize = base;
    while i < d
        invariant
            base <= i <= d < f <= len == s@.len(),
            base + 1 <= d,
            d + 3 <= f,
            s@[d as int] == '.',
            forall|k: int| d < k < f ==> s@[k] != '.',
            host == rest.take(fb),
            forall|k: int| base <= k < i ==> is_host_char(s@[k]),
        decreases d - i,
    {
        if !is_host(s.get_char(i)) {
            proof {
                lemma_host_dot(s@, base as int, f as int, d as int);
                assert(!host_ok(host)) by {
                    if host_ok(host) {
                        assert(is_host_char(host[i - base]));
                        assert(host[i - base] == s@[base + (i - base)]);
                    }
                }
            }
            return false;
        }
        i = i + 1;
    }
    let mut i: usize = d + 1;
    while i < f
        invariant
            base <= d < i <= f <= len == s@.len(),
            base + 1 <= d,
            d + 3 <= f,
            s@[d as int] == '.',
            forall|k: int| d < k < f ==> s@[k] != '.',
            host == rest.take(fb),
            forall|k: int| d < k < i ==> is_letter_char(s@[k]),
        decreases f - i,
    {
        if !is_letter(s.get_char(i)) {
            proof {
                lemma_host_dot(s@, base as int, f as int, d as int);
                assert(!host_ok(host)) by {
                    if host_ok(host) {
                        assert(is_letter_char(host[i - base]));
                        assert(host[i - base] == s@[base + (i - base)]);
                    }
                }
            }
            return false;
        }
        i = i + 1;
    }
    // Check the tail: everything after the separator must be non-whitespace.
    let mut i: usize = if f < len {
        f + 1
    } else {
        f
    };
    while i < len
        invariant
            f <= i <= len == s@.len(),
            base <= f,
            f < len ==> f + 1 <= i && is_sep_char(s@[f as int]),
            tail == rest.skip(fb),
            forall|k: int| f < k < i ==> !is_space_char(s@[k]),
        decreases len - i,
    {
        if is_space(s.get_char(i)) {
            proof {
                assert(!tail_ok(tail)) by {
                    assert(tail.len() == len - f > 0);
                    assert(is_space_char(tail[i - f]));
                    assert(tail[i - f] == s@[f + (i - f)]);
                }
            }
            return false;
        }
        i = i + 1;
    }
    proof {
        assert(host_ok(host)) by {
            assert(1 <= jd && jd + 3 <= host.len() && host[jd] == '.');
            assert(forall|k: int| 0 <= k < jd ==> is_host_char(#[trigger] host[k]));
            assert(forall|k: int| jd < k < host.len() ==> is_letter_char(#[trigger] host[k]));
        }
        assert(tail_ok(tail)) by {
            if tail.len() > 0 {
                assert(tail[0] == s@[f as int]);
                assert(forall|k: int| 1 <= k < tail.len() ==> !is_space_char(#[trigger] tail[k]));
            }
        }
        assert(0 <= fb <= rest.len() && host_ok(rest.take(fb)) && tail_ok(rest.skip(fb)));
    }
    true
}

/// If the host portion up to the first separator, split at the last dot,
/// fails any of the host conditions, or the tail contains whitespace, then
/// no split at all satisfies `authority_ok`: the split point is forced to
/// the first separator and the dot to the last one.
proof fn lemma_authority_split(s: Seq<char>, base: int, f: int)
    requires
        0 <= base <= f <= s.len(),
        forall|k: int| base <= k < f ==> !is_sep_char(s[k]),
        f < s.len() ==> is_sep_char(s[f]),
    ensures
        authority_ok(s.skip(base)) ==> host_ok(s.skip(base).take(f - base)) && tail_ok(
            s.skip(base).skip(f - base),
        ),
{
    let rest = s.skip(base);
    let fb = f - base;
    if authority_ok(rest) {
        let i = choose|i: int| #![auto] 0 <= i <= rest.len() && host_ok(rest.take(i)) && tail_ok(
            rest.skip(i),
        );
        assert forall|k: int| 0 <= k < fb implies !is_sep_char(rest[k]) by {
            assert(rest[k] == s[base + k]);
        }
        if i > fb {
            // The host part would contain the separator at fb.
            let h = rest.take(i);
            assert(is_sep_char(h[fb]));
            let j = choose|j: int|
                #![auto]
                1 <= j && j + 3 <= h.len() && h[j] == '.' && (forall|k: int|
                    0 <= k < j ==> is_host_char(h[k])) && (forall|k: int|
                    j < k < h.len() ==> is_letter_char(h[k]));
            lemma_sep_not_host(h[fb]);
            if fb < j {
                assert(is_host_char(h[fb]));
            } else if fb == j {
                assert(h[fb] == '.');
            } else {
                assert(is_letter_char(h[fb]));
            }
            assert(false);
        } else if i < fb {
            // The tail would begin with a non-separator.
            let t = rest.skip(i);
            assert(t.len() == rest.len() - i > 0);
            assert(t[0] == rest[i]);
            assert(!is_sep_char(rest[i]));
            assert(false);
        }
        assert(i == fb);
    }
}

/// Within a host portion, only the last dot can satisfy `host_ok`'s
/// decomposition: any earlier dot would leave a dot among the letters.
proof fn lemma_host_dot(s: Seq<char>, base: int, f: int, d: int)
    requires
        0 <= base <= d < f <= s.len(),
        s[d] == '.',
        forall|k: int| d < k < f ==> s[k] != '.',
    ensures
        host_ok(s.skip(base).take(f - base)) ==> ({
            let h = s.skip(base).take(f - base);
            let j = d - base;
            1 <= j && j + 3 <= h.len() && (forall|k: int|
                0 <= k < j ==> is_host_char(#[trigger] h[k])) && (forall|k: int|
                j < k < h.len() ==> is_letter_char(#[trigger] h[k]))
        }),
{
    let h = s.skip(base).take(f - base);
    let jd = d - base;
    assert forall|k: int| 0 <= k < h.len() implies h[k] == s[base + k] by {}
    if host_ok(h) {
        let j = choose|j: int|
            #![auto]
            1 <= j && j + 3 <= h.len() && h[j] == '.' && (forall|k: int|
                0 <= k < j ==> is_host_char(h[k])) && (forall|k: int|
                j < k < h.len() ==> is_letter_char(h[k]));
        if j > jd {
            // h[j] is a dot after d within the host range.
            assert(h[j] == s[base + j]);
            assert(d < base + j < f);
            assert(false);
        } else if j < jd {
            // The dot at jd would sit among the top-level letters.
            assert(is_letter_char(h[jd]));
            assert(h[jd] == '.');
            assert(false);
        }
        assert(j == jd);
    }
}

/// Decides whether `s` matches the accepted URL shape.
pub fn is_valid_url(s: &str) -> (r: bool)
    ensures
        r == url_ok(s@),
{
    proof {
        reveal_strlit("http://");
        reveal_strlit("https://");
    }
    let len = s.unicode_len();
    if crate::text::has_prefix(s, "http://") {
        proof {
            // Both schemes cannot match: the two prefixes differ at index 4.
            assert(s@.take(7)[4] == s@[4]);
            if s@.len() >= 8 && s@.take(8) == "https://"@ {
                assert(s@.take(8)[4] == s@[4]);
                assert(false);
            }
        }
        check_authority(s, 7, len)
    } else if crate::text::has_prefix(s, "https://") {
        check_authority(s, 8, len)
    } else {
        false
    }
}

} // verus!
