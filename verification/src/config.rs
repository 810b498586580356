//! Port extraction from an instance's config file contents.
//!
//! The caller reads the file; this module scans the bytes. The first
//! line that, after leading padding, begins with `-p ` followed by at
//! least four bytes defines the port: the four bytes after `-p `. When
//! no line does, the scan yields the unknown-port sentinel `????`.

use vstd::prelude::*;

verus! {

/// A byte the scanner treats as line padding: space, tab, or carriage
/// return (the file may use CRLF line endings).
pub open spec fn is_padding(b: u8) -> bool {
    b == 32 || b == 9 || b == 13
}

/// A line with its leading padding removed.
pub open spec fn trim_left(s: Seq<u8>) -> Seq<u8>
    decreases s.len(),
{
    if s.len() > 0 && is_padding(s.first()) {
        trim_left(s.drop_first())
    } else {
        s
    }
}

/// The port one line defines, if any: after left-trimming, a line
/// `-p XXXX...` yields the four bytes following `-p ` (45, 112, 32 are
/// ASCII '-', 'p', ' ').
pub open spec fn line_port(line: Seq<u8>) -> Option<Seq<u8>> {
    let t = trim_left(line);
    if t.len() >= 7 && t[0] == 45 && t[1] == 112 && t[2] == 32 {
        Some(t.subrange(3, 7))
    } else {
        None
    }
}

/// The sentinel shown when no line defines a port: ASCII "????".
pub open spec fn unknown_port() -> Seq<u8> {
    seq![63u8, 63u8, 63u8, 63u8]
}

/// Scan of the remaining bytes `s`, with `cur` the bytes of the current
/// line seen so far; lines end at a line feed, and the first line that
/// defines a port wins.
pub open spec fn scan_port(s: Seq<u8>, cur: Seq<u8>) -> Seq<u8>
    decreases s.len(),
{
    if s.len() == 0 {
        match line_port(cur) {
            Some(p) => p,
            None => unknown_port(),
        }
    } else if s.first() == 10 {
        match line_port(cur) {
            Some(p) => p,
            None => scan_port(s.drop_first(), Seq::empty()),
        }
    } else {
        scan_port(s.drop_first(), cur.push(s.first()))
    }
}

/// The port the whole config file defines.
pub open spec fn spec_port(contents: Seq<u8>) -> Seq<u8> {
    scan_port(contents, Seq::empty())
}

/// Whatever the scan yields — a port token or the sentinel — is exactly
/// four bytes.
pub proof fn lemma_port_is_four_bytes(contents: Seq<u8>)
    ensures
        spec_port(contents).len() == 4,
{
    lemma_scan_port_len(contents, Seq::empty());
}

proof fn lemma_scan_port_len(s: Seq<u8>, cur: Seq<u8>)
    ensures
        scan_port(s, cur).len() == 4,
    decreases s.len(),
{
    if s.len() == 0 {
    } else if s.first() == 10 {
        if line_port(cur) is None {
            lemma_scan_port_len(s.drop_first(), Seq::empty());
        }
    } else {
        lemma_scan_port_len(s.drop_first(), cur.push(s.first()));
    }
}

/// The port defined by the line `s[start..end]`, as `line_port` states it.
fn line_port_exec(s: &[u8], start: usize, end: usize) -> (r: Option<Vec<u8>>)
    requires
        start <= end <= s@.len(),
    ensures
        (match r {
            Some(v) => line_port(s@.subrange(start as int, end as int)) == Some(v@),
            None => line_port(s@.subrange(start as int, end as int)) is None,
        }),
{
    let ghost line = s@.subrange(start as int, end as int);
    let mut a = start;
    while a < end && (s[a] == 32 || s[a] == 9 || s[a] == 13)
        invariant
            start <= a <= end <= s@.len(),
            trim_left(line) == trim_left(s@.subrange(a as int, end as int)),
        decreases end - a,
    {
        proof {
            let sub = s@.subrange(a as int, end as int);
            assert(sub.first() == s@[a as int]);
            assert(sub.drop_first() =~= s@.subrange(a as int + 1, end as int));
            assert(trim_left(sub) == trim_left(sub.drop_first()));
        }
        a = a + 1;
    }
    proof {
        let t = s@.subrange(a as int, end as int);
        if t.len() > 0 {
            assert(t.first() == s@[a as int]);
        }
        assert(trim_left(t) == t);
        assert(trim_left(line) == t);
    }
    if end - a >= 7 && s[a] == 45 && s[a + 1] == 112 && s[a + 2] == 32 {
        let mut v: Vec<u8> = Vec::new();
        v.push(s[a + 3]);
        v.push(s[a + 4]);
        v.push(s[a + 5]);
        v.push(s[a + 6]);
        proof {
            let t = s@.subrange(a as int, end as int);
            assert(t[0] == s@[a as int]);
            assert(t[1] == s@[a as int + 1]);
            assert(t[2] == s@[a as int + 2]);
            assert(v@ =~= t.subrange(3, 7));
        }
        Some(v)
    } else {
        proof {
            let t = s@.subrange(a as int, end as int);
            if t.len() >= 7 {
                assert(t[0] == s@[a as int]);
                assert(t[1] == s@[a as int + 1]);
                assert(t[2] == s@[a as int + 2]);
            }
        }
        None
    }
}

/// The port the config file contents define, or the `????` sentinel.
pub fn port_from_config(contents: &[u8]) -> (r: Vec<u8>)
    ensures
        r@ == spec_port(contents@),
        r@.len() == 4,
{
    proof {
        lemma_port_is_four_bytes(contents@);
        assert(contents@.subrange(0, contents@.len() as int) =~= contents@);
        assert(contents@.subrange(0, 0) =~= Seq::<u8>::empty());
    }
    let n = contents.len();
    let mut line_start: usize = 0;
    let mut i: usize = 0;
    while i < n
        invariant
            line_start <= i <= n,
            n == contents@.len(),
            spec_port(contents@) == scan_port(
                contents@.subrange(i as int, n as int),
                contents@.subrange(line_start as int, i as int),
            ),
        decreases n - i,
    {
        let ghost rest = contents@.subrange(i as int, n as int);
        let ghost cur = contents@.subrange(line_start as int, i as int);
        proof {
            assert(rest.first() == contents@[i as int]);
            assert(rest.drop_first() =~= contents@.subrange(i as int + 1, n as int));
        }
        if contents[i] == 10 {
            match line_port_exec(contents, line_start, i) {
                Some(v) => {
                    return v;
                }
                None => {
                    line_start = i + 1;
                    proof {
                        assert(contents@.subrange(i as int + 1, i as int + 1) =~= Seq::<
                            u8,
                        >::empty());
                    }
                }
            }
        } else {
            proof {
                assert(cur.push(contents@[i as int]) =~= contents@.subrange(
                    line_start as int,
                    i as int + 1,
                ));
            }
        }
        i = i + 1;
    }
    proof {
        assert(contents@.subrange(n as int, n as int).len() == 0);
    }
    match line_port_exec(contents, line_start, n) {
        Some(v) => v,
        None => {
            let mut v: Vec<u8> = Vec::new();
            v.push(63);
            v.push(63);
            v.push(63);
            v.push(63);
            proof {
                assert(v@ =~= unknown_port());
            }
            v
        }
    }
}

} // verus!
