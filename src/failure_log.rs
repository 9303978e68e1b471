//! The failure log: one line per failed directory or file, appended whole.
use vstd::prelude::*;

verus! {

/// The text of one entry: the line and a line break.
pub open spec fn entry_of(line: Seq<char>) -> Seq<char> {
    line + seq!['\n']
}

/// The text of a log that holds `lines`, in order.
pub open spec fn log_text(lines: Seq<Seq<char>>) -> Seq<char>
    decreases lines.len(),
{
    if lines.len() == 0 {
        Seq::empty()
    } else {
        log_text(lines.drop_last()) + entry_of(lines.last())
    }
}

/// The number of line breaks in `t`.
pub open spec fn breaks(t: Seq<char>) -> nat
    decreases t.len(),
{
    if t.len() == 0 {
        0
    } else {
        breaks(t.drop_last()) + if t.last() == '\n' { 1nat } else { 0nat }
    }
}

/// A line holds no line break.
pub open spec fn single_line(l: Seq<char>) -> bool {
    forall|i: int| 0 <= i < l.len() ==> l[i] != '\n'
}

/// The text of one entry.
pub fn entry_text(line: &str) -> (r: String)
    ensures
        r@ == entry_of(line@),
{
    let mut r = String::from_str(line);
    proof {
        reveal_strlit("\n");
    }
    r.append("\n");
    assert(r@ =~= entry_of(line@));
    r
}

/// An append-only log of failure lines. Appends go through `&mut`, so they
/// are serialized: each one adds its entry whole.
pub struct FailureLog {
    pub text: String,
    pub lines: Ghost<Seq<Seq<char>>>,
}

impl FailureLog {
    /// The text is the entries of the recorded lines, in the order recorded.
    pub open spec fn wf(&self) -> bool {
        self.text@ == log_text(self.lines@)
    }

    /// An empty log.
    pub fn new() -> (r: FailureLog)
        ensures
            r.wf(),
            r.lines@ == Seq::<Seq<char>>::empty(),
    {
        FailureLog { text: String::new(), lines: Ghost(Seq::empty()) }
    }

    /// Appends one line.
    pub fn record(&mut self, line: &str)
        requires
            old(self).wf(),
        ensures
            final(self).wf(),
            final(self).lines@ == old(self).lines@.push(line@),
            final(self).text@ == old(self).text@ + entry_of(line@),
    {
        let e = entry_text(line);
        self.text.append(e.as_str());
        self.lines = Ghost(self.lines@.push(line@));
        assert(self.lines@.drop_last() =~= old(self).lines@);
    }

    /// The text of the log.
    pub fn contents(&self) -> (r: &str)
        ensures
            r@ == self.text@,
    {
        self.text.as_str()
    }
}

/// Line breaks add up over concatenation.
pub proof fn lemma_breaks_concat(a: Seq<char>, b: Seq<char>)
    ensures
        breaks(a + b) == breaks(a) + breaks(b),
    decreases b.len(),
{
    if b.len() > 0 {
        lemma_breaks_concat(a, b.drop_last());
        assert((a + b).drop_last() =~= a + b.drop_last());
    }
}

/// A line with no line break has none.
pub proof fn lemma_single_line_breaks(l: Seq<char>)
    requires
        single_line(l),
    ensures
        breaks(l) == 0,
    decreases l.len(),
{
    if l.len() > 0 {
        lemma_single_line_breaks(l.drop_last());
    }
}

/// The text of two runs of records is the text of the first followed by
/// that of the second.
pub proof fn lemma_log_text_concat(a: Seq<Seq<char>>, b: Seq<Seq<char>>)
    ensures
        log_text(a + b) == log_text(a) + log_text(b),
    decreases b.len(),
{
    if b.len() == 0 {
        assert(a + b =~= a);
        assert(log_text(a) + log_text(b) =~= log_text(a));
    } else {
        lemma_log_text_concat(a, b.drop_last());
        assert((a + b).drop_last() =~= a + b.drop_last());
        assert(log_text(a + b) =~= log_text(a) + log_text(b));
    }
}

/// Whatever order `n` single-line records arrive in, the log holds exactly
/// `n` line breaks, and each record stands whole in it as one entry: the text
/// is the text of the records before it, its own entry, then the text of the
/// records after it.
pub proof fn lemma_records_stay_whole(lines: Seq<Seq<char>>)
    requires
        forall|i: int| 0 <= i < lines.len() ==> single_line(#[trigger] lines[i]),
    ensures
        breaks(log_text(lines)) == lines.len(),
        forall|i: int|
            0 <= i < lines.len() ==> log_text(lines) == log_text(lines.take(i)) + entry_of(
                #[trigger] lines[i],
            ) + log_text(lines.skip(i + 1)),
    decreases lines.len(),
{
    if lines.len() > 0 {
        let rest = lines.drop_last();
        assert forall|i: int| 0 <= i < rest.len() implies single_line(#[trigger] rest[i]) by {
            assert(rest[i] == lines[i]);
        }
        lemma_records_stay_whole(rest);
        let l = lines.last();
        assert(single_line(lines[lines.len() - 1]));
        lemma_single_line_breaks(l);
        lemma_breaks_concat(log_text(rest), entry_of(l));
        lemma_breaks_concat(l, seq!['\n']);
        let nl = seq!['\n'];
        assert(nl.drop_last() =~= Seq::<char>::empty());
        assert(breaks(Seq::<char>::empty()) == 0);
        assert(nl.last() == '\n');
        assert(breaks(nl) == 1);
        assert(log_text(lines) == log_text(rest) + entry_of(l));
    }
    assert forall|i: int| 0 <= i < lines.len() implies log_text(lines) == log_text(lines.take(i))
        + entry_of(#[trigger] lines[i]) + log_text(lines.skip(i + 1)) by {
        lemma_record_in_place(lines, i);
    }
}

/// A record's entry stands between the text of the records before it and
/// that of the records after it.
proof fn lemma_record_in_place(lines: Seq<Seq<char>>, i: int)
    requires
        0 <= i < lines.len(),
    ensures
        log_text(lines) == log_text(lines.take(i)) + entry_of(lines[i]) + log_text(
            lines.skip(i + 1),
        ),
{
    let one = seq![lines[i]];
    assert(one.drop_last() =~= Seq::<Seq<char>>::empty());
    assert(log_text(Seq::<Seq<char>>::empty()) == Seq::<char>::empty());
    assert(log_text(one) =~= entry_of(lines[i]));
    lemma_log_text_concat(lines.take(i), one);
    lemma_log_text_concat(lines.take(i) + one, lines.skip(i + 1));
    assert(lines.take(i) + one + lines.skip(i + 1) =~= lines);
}

} // verus!
