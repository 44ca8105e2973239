use vstd::prelude::*;

verus! {

use vstd::std_specs::iter::IteratorSpec;

broadcast use vstd::string::axiom_spec_iter, vstd::string::next_postcondition;

/// The deepest element nesting that a text is parsed with. The XML parser
/// descends once per nesting level, so deeper texts are refused before parsing.
pub const MAX_XML_DEPTH: usize = 128;

// What the scanner is inside of.
pub const IN_TEXT: u8 = 0;
pub const AFTER_LT: u8 = 1;
pub const IN_START_TAG: u8 = 2;
pub const IN_QUOTE: u8 = 3;
pub const IN_END_TAG: u8 = 4;
pub const AFTER_BANG: u8 = 5;
pub const COMMENT_OPENING: u8 = 6;
pub const IN_COMMENT: u8 = 7;
pub const IN_CDATA: u8 = 8;
pub const IN_PI: u8 = 9;
pub const IN_DECL: u8 = 10;

/// Where a left-to-right scan of XML markup stands: what it is inside of,
/// how many closing characters it has just seen (`-` in a comment, `]` in a
/// CDATA section, `?` in a processing instruction, `/` in a start tag), the
/// quote that opened an attribute value, the open elements, and the most
/// elements ever open at once.
pub struct ScanModel {
    pub mode: u8,
    pub run: u8,
    pub quote: char,
    pub depth: nat,
    pub deepest: nat,
}

pub open spec fn start_model() -> ScanModel {
    ScanModel { mode: IN_TEXT, run: 0, quote: ' ', depth: 0, deepest: 0 }
}

pub open spec fn one_less(n: nat) -> nat {
    if n > 0 {
        (n - 1) as nat
    } else {
        0
    }
}

/// A run of closing characters, counted up to two.
pub open spec fn bump(run: u8) -> u8 {
    if run < 2 {
        (run + 1) as u8
    } else {
        2
    }
}

/// The scan after one more character.
pub open spec fn scan_step(st: ScanModel, c: char) -> ScanModel {
    let m = st.mode;
    if m == IN_TEXT {
        if c == '<' {
            ScanModel { mode: AFTER_LT, ..st }
        } else {
            st
        }
    } else if m == AFTER_LT {
        if c == '/' {
            ScanModel { mode: IN_END_TAG, depth: one_less(st.depth), ..st }
        } else if c == '!' {
            ScanModel { mode: AFTER_BANG, ..st }
        } else if c == '?' {
            ScanModel { mode: IN_PI, run: 0, ..st }
        } else {
            let d = st.depth + 1;
            ScanModel {
                mode: IN_START_TAG,
                run: 0,
                depth: d,
                deepest: if d > st.deepest {
                    d
                } else {
                    st.deepest
                },
                ..st
            }
        }
    } else if m == IN_START_TAG {
        if c == '"' || c == '\'' {
            ScanModel { mode: IN_QUOTE, quote: c, ..st }
        } else if c == '>' {
            ScanModel {
                mode: IN_TEXT,
                run: 0,
                depth: if st.run == 1 {
                    one_less(st.depth)
                } else {
                    st.depth
                },
                ..st
            }
        } else if c == '/' {
            ScanModel { run: 1, ..st }
        } else {
            ScanModel { run: 0, ..st }
        }
    } else if m == IN_QUOTE {
        if c == st.quote {
            ScanModel { mode: IN_START_TAG, run: 0, ..st }
        } else {
            st
        }
    } else if m == IN_END_TAG {
        if c == '>' {
            ScanModel { mode: IN_TEXT, ..st }
        } else {
            st
        }
    } else if m == AFTER_BANG {
        if c == '-' {
            ScanModel { mode: COMMENT_OPENING, ..st }
        } else if c == '[' {
            ScanModel { mode: IN_CDATA, run: 0, ..st }
        } else {
            ScanModel { mode: IN_DECL, ..st }
        }
    } else if m == COMMENT_OPENING {
        if c == '-' {
            ScanModel { mode: IN_COMMENT, run: 0, ..st }
        } else {
            ScanModel { mode: IN_TEXT, ..st }
        }
    } else if m == IN_COMMENT {
        if c == '-' {
            ScanModel { run: bump(st.run), ..st }
        } else if c == '>' && st.run >= 2 {
            ScanModel { mode: IN_TEXT, run: 0, ..st }
        } else {
            ScanModel { run: 0, ..st }
        }
    } else if m == IN_CDATA {
        if c == ']' {
            ScanModel { run: bump(st.run), ..st }
        } else if c == '>' && st.run >= 2 {
            ScanModel { mode: IN_TEXT, run: 0, ..st }
        } else {
            ScanModel { run: 0, ..st }
        }
    } else if m == IN_PI {
        if c == '?' {
            ScanModel { run: 1, ..st }
        } else if c == '>' && st.run == 1 {
            ScanModel { mode: IN_TEXT, run: 0, ..st }
        } else {
            ScanModel { run: 0, ..st }
        }
    } else {
        if c == '>' {
            ScanModel { mode: IN_TEXT, ..st }
        } else {
            st
        }
    }
}

pub open spec fn scan(s: Seq<char>) -> ScanModel
    decreases s.len(),
{
    if s.len() == 0 {
        start_model()
    } else {
        scan_step(scan(s.drop_last()), s.last())
    }
}

/// The most elements that are open at once in a text, as the markup shows it.
pub open spec fn deepest_nesting(s: Seq<char>) -> nat {
    scan(s).deepest
}

proof fn lemma_scan_bounds(s: Seq<char>)
    ensures
        scan(s).depth <= scan(s).deepest,
    decreases s.len(),
{
    if s.len() > 0 {
        lemma_scan_bounds(s.drop_last());
    }
}

proof fn lemma_deepest_grows(s: Seq<char>, i: int)
    requires
        0 <= i <= s.len(),
    ensures
        scan(s.subrange(0, i)).deepest <= scan(s).deepest,
    decreases s.len() - i,
{
    if i < s.len() {
        lemma_deepest_grows(s, i + 1);
        assert(s.subrange(0, i + 1).drop_last() =~= s.subrange(0, i));
    } else {
        assert(s.subrange(0, i) =~= s);
    }
}

struct Scanner {
    mode: u8,
    run: u8,
    quote: char,
    depth: usize,
    deepest: usize,
}

impl Scanner {
    spec fn model(&self) -> ScanModel {
        ScanModel {
            mode: self.mode,
            run: self.run,
            quote: self.quote,
            depth: self.depth as nat,
            deepest: self.deepest as nat,
        }
    }
}

fn scan_char(st: Scanner, c: char) -> (r: Scanner)
    requires
        st.depth <= st.deepest < usize::MAX,
    ensures
        r.model() == scan_step(st.model(), c),
{
    let m = st.mode;
    let less = if st.depth > 0 {
        st.depth - 1
    } else {
        0
    };
    if m == IN_TEXT {
        if c == '<' {
            Scanner { mode: AFTER_LT, ..st }
        } else {
            st
        }
    } else if m == AFTER_LT {
        if c == '/' {
            Scanner { mode: IN_END_TAG, depth: less, ..st }
        } else if c == '!' {
            Scanner { mode: AFTER_BANG, ..st }
        } else if c == '?' {
            Scanner { mode: IN_PI, run: 0, ..st }
        } else {
            let d = st.depth + 1;
            Scanner {
                mode: IN_START_TAG,
                run: 0,
                depth: d,
                deepest: if d > st.deepest {
                    d
                } else {
                    st.deepest
                },
                ..st
            }
        }
    } else if m == IN_START_TAG {
        if c == '"' || c == '\'' {
            Scanner { mode: IN_QUOTE, quote: c, ..st }
        } else if c == '>' {
            Scanner {
                mode: IN_TEXT,
                run: 0,
                depth: if st.run == 1 {
                    less
                } else {
                    st.depth
                },
                ..st
            }
        } else if c == '/' {
            Scanner { run: 1, ..st }
        } else {
            Scanner { run: 0, ..st }
        }
    } else if m == IN_QUOTE {
        if c == st.quote {
            Scanner { mode: IN_START_TAG, run: 0, ..st }
        } else {
            st
        }
    } else if m == IN_END_TAG {
        if c == '>' {
            Scanner { mode: IN_TEXT, ..st }
        } else {
            st
        }
    } else if m == AFTER_BANG {
        if c == '-' {
            Scanner { mode: COMMENT_OPENING, ..st }
        } else if c == '[' {
            Scanner { mode: IN_CDATA, run: 0, ..st }
        } else {
            Scanner { mode: IN_DECL, ..st }
        }
    } else if m == COMMENT_OPENING {
        if c == '-' {
            Scanner { mode: IN_COMMENT, run: 0, ..st }
        } else {
            Scanner { mode: IN_TEXT, ..st }
        }
    } else if m == IN_COMMENT || m == IN_CDATA {
        let closer = if m == IN_COMMENT {
            '-'
        } else {
            ']'
        };
        if c == closer {
            Scanner {
                run: if st.run < 2 {
                    st.run + 1
                } else {
                    2
                },
                ..st
            }
        } else if c == '>' && st.run >= 2 {
            Scanner { mode: IN_TEXT, run: 0, ..st }
        } else {
            Scanner { run: 0, ..st }
        }
    } else if m == IN_PI {
        if c == '?' {
            Scanner { run: 1, ..st }
        } else if c == '>' && st.run == 1 {
            Scanner { mode: IN_TEXT, run: 0, ..st }
        } else {
            Scanner { run: 0, ..st }
        }
    } else {
        if c == '>' {
            Scanner { mode: IN_TEXT, ..st }
        } else {
            st
        }
    }
}

/// Whether no more than `limit` elements are ever open at once in `text`.
pub fn nesting_within(text: &str, limit: usize) -> (r: bool)
    requires
        limit < usize::MAX,
    ensures
        r == (deepest_nesting(text@) <= limit),
{
    let mut st = Scanner { mode: IN_TEXT, run: 0, quote: ' ', depth: 0, deepest: 0 };
    let mut it = text.chars();
    let ghost mut k: int = 0;
    loop
        invariant
            0 <= k <= text@.len(),
            it.remaining() == text@.subrange(k, text@.len() as int),
            it.obeys_prophetic_iter_laws(),
            st.model() == scan(text@.subrange(0, k)),
            st.depth <= st.deepest <= limit < usize::MAX,
        decreases text@.len() - k,
    {
        match it.next() {
            Some(c) => {
                proof {
                    assert(c == text@[k]);
                    assert(text@.subrange(0, k + 1).drop_last() =~= text@.subrange(0, k));
                    assert(text@.subrange(k + 1, text@.len() as int) =~= text@.subrange(
                        k,
                        text@.len() as int,
                    ).drop_first());
                }
                st = scan_char(st, c);
                proof {
                    k = k + 1;
                    lemma_scan_bounds(text@.subrange(0, k));
                }
                if st.deepest > limit {
                    proof {
                        lemma_deepest_grows(text@, k);
                    }
                    return false;
                }
            },
            None => {
                proof {
                    assert(text@.subrange(0, k) =~= text@);
                }
                return true;
            },
        }
    }
}

} // verus!
