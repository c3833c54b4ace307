use vstd::prelude::*;
use crate::scan::{line_qualifies, qualifies, scan_indent, space_run, tab_run};

verus! {

/// Number of qualifying lines that are sampled at most.
pub const SAMPLE_CAP: usize = 100;

/// A space run as a `u32`: the count taken modulo 2^32.
pub open spec fn wrap32(n: nat) -> u32 {
    (n % 0x1_0000_0000) as u32
}

/// What sampling has gathered so far: whether a leading tab was seen, the
/// nonzero space runs in order, and how many lines were sampled.
pub struct Sampled {
    pub tabs: bool,
    pub sp_counts: Seq<u32>,
    pub lines: nat,
}

pub open spec fn empty_sample() -> Sampled {
    Sampled { tabs: false, sp_counts: Seq::empty(), lines: 0 }
}

/// One line offered to the sampler. Lines that do not start with a tab or a
/// space are skipped and do not count against the cap.
pub open spec fn sample_step(st: Sampled, line: Seq<char>) -> Sampled {
    if st.lines < SAMPLE_CAP && qualifies(line) {
        let sp = wrap32(space_run(line));
        Sampled {
            tabs: st.tabs || tab_run(line) > 0,
            sp_counts: if sp > 0 { st.sp_counts.push(sp) } else { st.sp_counts },
            lines: st.lines + 1,
        }
    } else {
        st
    }
}

/// The sample gathered from a sequence of lines, offered in order.
pub open spec fn sample_of(lines: Seq<Seq<char>>) -> Sampled
    decreases lines.len(),
{
    if lines.len() == 0 {
        empty_sample()
    } else {
        sample_step(sample_of(lines.drop_last()), lines.last())
    }
}

/// The views of a sequence of strings.
pub open spec fn views(lines: Seq<String>) -> Seq<Seq<char>> {
    lines.map_values(|l: String| l@)
}

/// Once the cap is reached, further lines change nothing: only the first
/// `SAMPLE_CAP` qualifying lines are ever sampled.
pub proof fn lemma_sample_stops_at_cap(a: Seq<Seq<char>>, b: Seq<Seq<char>>)
    requires
        sample_of(a).lines == SAMPLE_CAP,
    ensures
        sample_of(a + b) == sample_of(a),
    decreases b.len(),
{
    if b.len() == 0 {
        assert(a + b =~= a);
    } else {
        lemma_sample_stops_at_cap(a, b.drop_last());
        assert((a + b).drop_last() =~= a + b.drop_last());
    }
}

proof fn lemma_sample_bounds(lines: Seq<Seq<char>>)
    ensures
        sample_of(lines).lines <= SAMPLE_CAP,
        forall|i: int| 0 <= i < sample_of(lines).sp_counts.len() ==> sample_of(lines).sp_counts[i] > 0,
    decreases lines.len(),
{
    if lines.len() > 0 {
        lemma_sample_bounds(lines.drop_last());
    }
}

/// Gathers the sample one line at a time, so that a caller reading lines
/// lazily can stop as soon as the cap is reached.
pub struct Collector {
    tabs: bool,
    sp_counts: Vec<u32>,
    lines: usize,
}

impl View for Collector {
    type V = Sampled;

    closed spec fn view(&self) -> Sampled {
        Sampled { tabs: self.tabs, sp_counts: self.sp_counts@, lines: self.lines as nat }
    }
}

impl Collector {
    /// The collector's invariant: at most `SAMPLE_CAP` lines sampled, and
    /// only nonzero space runs recorded.
    pub open spec fn wf(&self) -> bool {
        &&& self@.lines <= SAMPLE_CAP
        &&& forall|i: int| 0 <= i < self@.sp_counts.len() ==> self@.sp_counts[i] > 0
    }

    pub fn new() -> (r: Collector)
        ensures
            r.wf(),
            r@ == empty_sample(),
    {
        let r = Collector { tabs: false, sp_counts: Vec::new(), lines: 0 };
        assert(r@.sp_counts =~= Seq::empty());
        r
    }

    /// Offers one line. Returns whether more lines are wanted, that is
    /// whether the cap has not been reached yet.
    pub fn feed(&mut self, line: &str) -> (more: bool)
        requires
            old(self).wf(),
        ensures
            final(self).wf(),
            final(self)@ == sample_step(old(self)@, line@),
            more == (final(self)@.lines < SAMPLE_CAP),
    {
        if self.lines < SAMPLE_CAP && line_qualifies(line) {
            let (tab_count, sp_count) = scan_indent(line);
            if tab_count > 0 {
                self.tabs = true;
            }
            let sp = ((sp_count as u64) % 0x1_0000_0000u64) as u32;
            if sp > 0 {
                let ghost before = self.sp_counts@;
                self.sp_counts.push(sp);
                proof {
                    assert forall|i: int| 0 <= i < self.sp_counts@.len() implies self.sp_counts@[i] > 0 by {
                        if i < before.len() {
                            assert(before == old(self)@.sp_counts);
                            assert(old(self)@.sp_counts[i] > 0);
                            assert(self.sp_counts@[i] == before[i]);
                        }
                    }
                }
            }
            self.lines = self.lines + 1;
        }
        proof {
            assert forall|i: int| 0 <= i < self@.sp_counts.len() implies self@.sp_counts[i] > 0 by {
                assert(self@.sp_counts[i] == self.sp_counts@[i]);
                if self.sp_counts@ == old(self).sp_counts@ {
                    assert(old(self)@.sp_counts[i] > 0);
                }
            }
        }
        self.lines < SAMPLE_CAP
    }

    /// Whether a leading tab was seen.
    pub fn tabs(&self) -> (r: bool)
        ensures
            r == self@.tabs,
    {
        self.tabs
    }

    /// The nonzero space runs, in the order of the lines.
    pub fn sp_counts(&self) -> (r: &[u32])
        ensures
            r@ == self@.sp_counts,
    {
        self.sp_counts.as_slice()
    }

    /// Hands out what was gathered: the tab flag and the space runs.
    pub fn into_parts(self) -> (r: (bool, Vec<u32>))
        ensures
            r.0 == self@.tabs,
            r.1@ == self@.sp_counts,
    {
        (self.tabs, self.sp_counts)
    }
}

/// Samples the lines in order: whether a sampled line leads with a tab, and
/// the nonzero space runs of the sampled lines.
pub fn count_indents(lines: &[String]) -> (r: (bool, Vec<u32>))
    ensures
        r.0 == sample_of(views(lines@)).tabs,
        r.1@ == sample_of(views(lines@)).sp_counts,
        forall|i: int| 0 <= i < r.1@.len() ==> r.1@[i] > 0,
{
    let ghost all = views(lines@);
    let mut c = Collector::new();
    let mut i: usize = 0;
    let mut more = true;
    while more && i < lines.len()
        invariant
            i <= lines@.len(),
            all == views(lines@),
            c.wf(),
            c@ == sample_of(all.take(i as int)),
            !more ==> c@ == sample_of(all),
        decreases lines@.len() - i,
    {
        proof {
            assert(all.take(i + 1).drop_last() =~= all.take(i as int));
        }
        more = c.feed(lines[i].as_str());
        i = i + 1;
        proof {
            if !more {
                lemma_sample_stops_at_cap(all.take(i as int), all.skip(i as int));
                assert(all.take(i as int) + all.skip(i as int) =~= all);
            }
        }
    }
    proof {
        if more {
            assert(all.take(i as int) =~= all);
        }
    }
    c.into_parts()
}

} // verus!
