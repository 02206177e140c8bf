//! `git log`: one line per commit of the current repository's history.

use git2::Repository;
use vstd::prelude::*;

use crate::text::{chars_to_string, push_str_chars};

verus! {

/// One commit, reduced to the plain values the listing shows.
#[derive(Debug)]
pub struct CommitRecord {
    pub seconds: i64,
    pub hash: String,
    pub summary: String,
    pub author: String,
}

/// The view of a commit record.
pub ghost struct CommitView {
    pub seconds: int,
    pub hash: Seq<char>,
    pub summary: Seq<char>,
    pub author: Seq<char>,
}

impl View for CommitRecord {
    type V = CommitView;

    open spec fn view(&self) -> CommitView {
        CommitView {
            seconds: self.seconds as int,
            hash: self.hash@,
            summary: self.summary@,
            author: self.author@,
        }
    }
}

/// The RFC 3339 rendering of a timestamp in UTC, as chrono writes it;
/// seconds outside chrono's range render as the empty string.
pub uninterp spec fn rfc3339_utc(seconds: int) -> Seq<char>;

/// Relies on chrono's `DateTime::from_timestamp` and `to_rfc3339`: the
/// text depends on the seconds value alone, and an out-of-range value
/// (where `from_timestamp` yields nothing) becomes the empty string.
#[verifier::external_body]
pub(crate) fn rfc3339_of_seconds(seconds: i64) -> (r: String)
    ensures
        r@ == rfc3339_utc(seconds as int),
{
    chrono::DateTime::from_timestamp(seconds, 0).map(|dt| dt.to_rfc3339()).unwrap_or_default()
}

/// Relies on git2 (`Repository::discover`, `revwalk` pushed to HEAD,
/// `find_commit` and the commit accessors): walks the history of the
/// repository containing the current directory and converts each commit
/// to a record of plain values, in walk order.  Commits whose summary or
/// author name is absent or not UTF-8 get the empty string there.
#[verifier::external_body]
fn head_commit_records() -> (r: Result<Vec<CommitRecord>, String>) {
    let walk_history = || -> Result<Vec<CommitRecord>, git2::Error> {
        let repo = Repository::discover(".")?;
        let mut walk = repo.revwalk()?;
        walk.push_head()?;
        let mut out = Vec::new();
        for rev in walk {
            let c = repo.find_commit(rev?)?;
            let summary = c.summary().ok().flatten().unwrap_or_default().to_string();
            let author = c.author().name().unwrap_or_default().to_string();
            out.push(CommitRecord { seconds: c.time().seconds(), hash: c.id().to_string(), summary, author });
        }
        Ok(out)
    };
    walk_history().map_err(|e| e.to_string())
}

/// One row of the listing: `[date] [hash] | summary {author}`.
pub open spec fn commit_line(c: CommitView) -> Seq<char> {
    "["@ + rfc3339_utc(c.seconds) + "] ["@ + c.hash + "] | "@ + c.summary + " {"@ + c.author
        + "}\n"@
}

/// The whole listing, one row per commit.
pub open spec fn commit_lines(cs: Seq<CommitView>) -> Seq<char>
    decreases cs.len(),
{
    if cs.len() == 0 {
        Seq::empty()
    } else {
        commit_line(cs[0]) + commit_lines(cs.drop_first())
    }
}

proof fn lemma_commit_lines_snoc(cs: Seq<CommitView>, c: CommitView)
    ensures
        commit_lines(cs.push(c)) == commit_lines(cs) + commit_line(c),
    decreases cs.len(),
{
    if cs.len() == 0 {
        reveal_with_fuel(commit_lines, 3);
        assert(cs.push(c) =~= seq![c]);
        assert((seq![c]).drop_first() =~= Seq::<CommitView>::empty());
        assert(commit_lines(cs) =~= Seq::<char>::empty());
        assert(commit_line(c) + Seq::<char>::empty() =~= commit_line(c));
        assert(commit_lines(seq![c]) =~= commit_line(c));
        assert(commit_lines(cs) + commit_line(c) =~= commit_line(c));
    } else {
        assert(cs.push(c).drop_first() =~= cs.drop_first().push(c));
        lemma_commit_lines_snoc(cs.drop_first(), c);
        assert(commit_lines(cs.push(c)) =~= commit_lines(cs) + commit_line(c));
    }
}

/// Render the listing for the given records.
#[verifier::loop_isolation(false)]
pub fn format_commits(records: &Vec<CommitRecord>) -> (r: String)
    ensures
        r@ == commit_lines(records@.map_values(|c: CommitRecord| c@)),
{
    let ghost cv = records@.map_values(|c: CommitRecord| c@);
    let mut out: Vec<char> = Vec::new();
    proof {
        assert(cv.take(0) =~= Seq::<CommitView>::empty());
    }
    let n = records.len();
    let mut i: usize = 0;
    while i < n
        invariant
            0 <= i <= n,
            out@ == commit_lines(cv.take(i as int)),
        decreases n - i,
    {
        push_str_chars(&mut out, "[");
        let date = rfc3339_of_seconds(records[i].seconds);
        push_str_chars(&mut out, date.as_str());
        push_str_chars(&mut out, "] [");
        push_str_chars(&mut out, records[i].hash.as_str());
        push_str_chars(&mut out, "] | ");
        push_str_chars(&mut out, records[i].summary.as_str());
        push_str_chars(&mut out, " {");
        push_str_chars(&mut out, records[i].author.as_str());
        push_str_chars(&mut out, "}\n");
        proof {
            assert(cv[i as int] == records@[i as int]@);
            assert(cv.take(i + 1) =~= cv.take(i as int).push(cv[i as int]));
            lemma_commit_lines_snoc(cv.take(i as int), cv[i as int]);
            assert(out@ =~= commit_lines(cv.take(i + 1)));
        }
        i += 1;
    }
    proof {
        assert(cv.take(n as int) =~= cv);
    }
    chars_to_string(&out)
}

/// List the history of the repository that holds the current directory.
/// Whatever git reports, a success is exactly the rendered listing of
/// some sequence of commit records.
pub fn list_commits_in_current_repo() -> (r: Result<String, String>)
    ensures
        r matches Ok(s) ==> exists|cs: Seq<CommitView>| s@ == commit_lines(cs),
{
    match head_commit_records() {
        Err(e) => Err(e),
        Ok(records) => {
            let s = format_commits(&records);
            proof {
                let cs = records@.map_values(|c: CommitRecord| c@);
                assert(s@ == commit_lines(cs));
            }
            Ok(s)
        },
    }
}

/// `git log`: the listing takes no arguments, which are ignored.
pub fn list_commits(_arguments: &str) -> (r: Result<String, String>)
    ensures
        r matches Ok(s) ==> exists|cs: Seq<CommitView>| s@ == commit_lines(cs),
{
    list_commits_in_current_repo()
}

} // verus!
