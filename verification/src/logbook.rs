//! The run's log as data: a header written before the child starts, body
//! lines appended while it runs, and a footer sealed on after it exits.
//! The rendered file is always header, body and footer in that order, with
//! each stream's lines appearing in arrival order.

use vstd::prelude::*;

use crate::text::{int_str, joined_with, i32_to_string, join_with};

verus! {

/// Which of the child's output streams a line arrived on.
#[derive(Clone, Copy, PartialEq, Eq, Structural, Debug)]
pub enum StreamKind {
    Stdout,
    Stderr,
}

/// The lines of `body` that arrived on stream `k`, in arrival order.
pub open spec fn stream_lines(body: Seq<(StreamKind, Seq<char>)>, k: StreamKind) -> Seq<Seq<char>>
    decreases body.len(),
{
    if body.len() == 0 {
        Seq::empty()
    } else {
        let rest = stream_lines(body.drop_last(), k);
        if body.last().0 == k {
            rest.push(body.last().1)
        } else {
            rest
        }
    }
}

/// The text of every body line, both streams interleaved in arrival order.
pub open spec fn body_texts(body: Seq<(StreamKind, Seq<char>)>) -> Seq<Seq<char>> {
    body.map_values(|p: (StreamKind, Seq<char>)| p.1)
}

/// The two streams' projections partition the body: every body line
/// belongs to exactly one stream, and each projection keeps arrival
/// order.
pub proof fn lemma_streams_partition_body(body: Seq<(StreamKind, Seq<char>)>)
    ensures
        stream_lines(body, StreamKind::Stdout).len() + stream_lines(
            body,
            StreamKind::Stderr,
        ).len() == body.len(),
    decreases body.len(),
{
    if body.len() > 0 {
        lemma_streams_partition_body(body.drop_last());
    }
}

/// Mathematical state of a log book.
#[verifier::ext_equal]
pub struct LogBookView {
    pub header: Seq<Seq<char>>,
    pub body: Seq<(StreamKind, Seq<char>)>,
    pub footer: Seq<Seq<char>>,
    pub sealed: bool,
}

/// The log as the supervisor builds it: the header is fixed at creation,
/// body lines are appended while the child runs, and sealing writes the
/// footer after which nothing changes.
pub struct LogBook {
    pub header: Vec<String>,
    pub body: Vec<(StreamKind, String)>,
    pub footer: Vec<String>,
    pub sealed: bool,
}

impl View for LogBook {
    type V = LogBookView;

    open spec fn view(&self) -> LogBookView {
        LogBookView {
            header: self.header.deep_view(),
            body: Seq::new(
                self.body@.len(),
                |i: int| (self.body@[i].0, self.body@[i].1@),
            ),
            footer: self.footer.deep_view(),
            sealed: self.sealed,
        }
    }
}

impl LogBook {
    /// Opens a log with its header; the body and footer are still empty.
    pub fn new(header: Vec<String>) -> (b: LogBook)
        ensures
            b@.header == header.deep_view(),
            b@.body == Seq::<(StreamKind, Seq<char>)>::empty(),
            b@.footer == Seq::<Seq<char>>::empty(),
            !b@.sealed,
    {
        let b = LogBook { header, body: Vec::new(), footer: Vec::new(), sealed: false };
        proof {
            assert(b@.body =~= Seq::<(StreamKind, Seq<char>)>::empty());
            assert(b@.footer =~= Seq::<Seq<char>>::empty());
        }
        b
    }

    /// Appends one line from the given stream. The line lands at the end of
    /// the body, and the other stream's projection is untouched: each
    /// stream's lines stay in arrival order.
    pub fn append_line(&mut self, kind: StreamKind, line: String)
        requires
            !old(self)@.sealed,
        ensures
            final(self)@.body == old(self)@.body.push((kind, line@)),
            final(self)@.header == old(self)@.header,
            final(self)@.footer == old(self)@.footer,
            final(self)@.sealed == old(self)@.sealed,
            stream_lines(final(self)@.body, kind) == stream_lines(old(self)@.body, kind).push(
                line@,
            ),
            forall|k: StreamKind|
                k != kind ==> stream_lines(final(self)@.body, k) == stream_lines(
                    old(self)@.body,
                    k,
                ),
    {
        let ghost prior = self@.body;
        self.body.push((kind, line));
        proof {
            assert(self@.body =~= prior.push((kind, self.body@[prior.len() as int].1@)));
            assert(self@.body.drop_last() =~= prior);
            assert(self@.header =~= old(self)@.header);
            assert(self@.footer =~= old(self)@.footer);
        }
    }

    /// Seals the log with its footer; nothing may be appended afterwards.
    pub fn seal(&mut self, footer: Vec<String>)
        requires
            !old(self)@.sealed,
        ensures
            final(self)@.sealed,
            final(self)@.footer == footer.deep_view(),
            final(self)@.header == old(self)@.header,
            final(self)@.body == old(self)@.body,
    {
        self.footer = footer;
        self.sealed = true;
        proof {
            assert(self@.body =~= old(self)@.body);
        }
    }

    /// The whole file, line by line: always the header first, then every
    /// body line in arrival order, then the footer last.
    pub fn rendered(&self) -> (r: Vec<String>)
        ensures
            r.deep_view() == self@.header + body_texts(self@.body) + self@.footer,
    {
        let mut out: Vec<String> = Vec::new();
        append_all(&mut out, &self.header);
        let mut i: usize = 0;
        while i < self.body.len()
            invariant
                0 <= i <= self.body@.len(),
                out.deep_view() =~= self.header.deep_view() + body_texts(
                    self@.body.take(i as int),
                ),
            decreases self.body@.len() - i,
        {
            let ghost before = out.deep_view();
            out.push(self.body[i].1.clone());
            proof {
                assert(out.deep_view() =~= before.push(self.body@[i as int].1@));
                assert(self@.body.take(i as int + 1).map_values(
                    |p: (StreamKind, Seq<char>)| p.1,
                ) =~= self@.body.take(i as int).map_values(|p: (StreamKind, Seq<char>)| p.1).push(
                    self.body@[i as int].1@,
                ));
            }
            i = i + 1;
        }
        proof {
            assert(self@.body.take(self.body@.len() as int) =~= self@.body);
        }
        append_all(&mut out, &self.footer);
        proof {
            assert(out.deep_view() =~= self@.header + body_texts(self@.body) + self@.footer);
        }
        out
    }
}

/// Appends clones of every element of `src` to `dst`.
pub fn append_all(dst: &mut Vec<String>, src: &Vec<String>)
    ensures
        final(dst).deep_view() == old(dst).deep_view() + src.deep_view(),
{
    let mut i: usize = 0;
    proof {
        assert(dst.deep_view() =~= old(dst).deep_view() + src.deep_view().take(0));
    }
    while i < src.len()
        invariant
            0 <= i <= src@.len(),
            dst.deep_view() =~= old(dst).deep_view() + src.deep_view().take(i as int),
        decreases src@.len() - i,
    {
        let ghost before = dst.deep_view();
        dst.push(src[i].clone());
        proof {
            assert(dst.deep_view() =~= before.push(src@[i as int]@));
            assert(before.push(src@[i as int]@) =~= old(dst).deep_view() + src.deep_view().take(
                i as int + 1,
            ));
        }
        i = i + 1;
    }
    proof {
        assert(src.deep_view().take(src@.len() as int) =~= src.deep_view());
    }
}

/// The header block: banner, timestamp, the command with its arguments,
/// the working directory, a rule, and a blank separator line.
pub open spec fn spec_log_header(
    timestamp: Seq<char>,
    command: Seq<char>,
    args: Seq<Seq<char>>,
    cwd: Seq<char>,
) -> Seq<Seq<char>> {
    seq![
        "=== Command Log ==="@,
        "Timestamp: "@ + timestamp,
        "Command: "@ + command + seq![' '] + joined_with(args, seq![' ']),
        "Working Directory: "@ + cwd,
        "==================="@,
        Seq::<char>::empty(),
    ]
}

/// The footer block: a blank separator line, a rule, the exit code, and the
/// completion timestamp.
pub open spec fn spec_log_footer(exit_code: int, finished_at: Seq<char>) -> Seq<Seq<char>> {
    seq![
        Seq::<char>::empty(),
        "==================="@,
        "Exit code: "@ + int_str(exit_code),
        "Finished at: "@ + finished_at,
    ]
}

/// Builds the header block written before the child is spawned.
pub fn format_log_header(timestamp: &str, command: &str, args: &Vec<String>, cwd: &str) -> (r: Vec<
    String,
>)
    ensures
        r.deep_view() == spec_log_header(timestamp@, command@, args.deep_view(), cwd@),
{
    let mut out: Vec<String> = Vec::new();
    out.push("=== Command Log ===".to_owned());
    let mut l1 = "Timestamp: ".to_owned();
    l1.append(timestamp);
    out.push(l1);
    let mut l2 = "Command: ".to_owned();
    l2.append(command);
    l2.append(" ");
    let joined = join_with(args, " ");
    l2.append(joined.as_str());
    proof {
        reveal_strlit(" ");
        assert(" "@ =~= seq![' ']);
    }
    out.push(l2);
    let mut l3 = "Working Directory: ".to_owned();
    l3.append(cwd);
    out.push(l3);
    out.push("===================".to_owned());
    out.push(String::new());
    proof {
        assert(out.deep_view() =~= spec_log_header(timestamp@, command@, args.deep_view(), cwd@));
    }
    out
}

/// Builds the footer block sealed onto the log after the child exits.
pub fn format_log_footer(exit_code: i32, finished_at: &str) -> (r: Vec<String>)
    ensures
        r.deep_view() == spec_log_footer(exit_code as int, finished_at@),
{
    let mut out: Vec<String> = Vec::new();
    out.push(String::new());
    out.push("===================".to_owned());
    let mut l1 = "Exit code: ".to_owned();
    let code = i32_to_string(exit_code);
    l1.append(code.as_str());
    out.push(l1);
    let mut l2 = "Finished at: ".to_owned();
    l2.append(finished_at);
    out.push(l2);
    proof {
        assert(out.deep_view() =~= spec_log_footer(exit_code as int, finished_at@));
    }
    out
}

/// Relies on `chrono::Local::now` and its RFC 3339 rendering for the
/// current wall-clock time; no two calls need agree.
#[verifier::external_body]
pub(crate) fn now_rfc3339() -> (r: String)
{
    chrono::Local::now().to_rfc3339()
}

/// Builds the header block with the current time as its timestamp.
pub fn make_log_header(command: &str, args: &Vec<String>, cwd: &str) -> (r: Vec<String>)
    ensures
        exists|t: Seq<char>| r.deep_view() == spec_log_header(t, command@, args.deep_view(), cwd@),
{
    let ts = now_rfc3339();
    let r = format_log_header(ts.as_str(), command, args, cwd);
    proof {
        assert(r.deep_view() == spec_log_header(ts@, command@, args.deep_view(), cwd@));
    }
    r
}

} // verus!
