//! `git show`: one commit in detail, header plus patch.

use git2::{DiffFormat, Oid, Repository};
use vstd::prelude::*;

use crate::functions::list_commits::{rfc3339_of_seconds, rfc3339_utc};
use crate::json::{string_arg_outcome, string_argument};
use crate::text::{chars_to_string, push_str_chars};

verus! {

/// One commit's header data, as plain values.
#[derive(Debug)]
pub struct CommitDetail {
    pub seconds: i64,
    pub hash: String,
    pub summary: String,
    pub author_name: String,
    pub author_email: String,
}

/// The view of a commit's header data.
pub ghost struct CommitDetailView {
    pub seconds: int,
    pub hash: Seq<char>,
    pub summary: Seq<char>,
    pub author_name: Seq<char>,
    pub author_email: Seq<char>,
}

impl View for CommitDetail {
    type V = CommitDetailView;

    open spec fn view(&self) -> CommitDetailView {
        CommitDetailView {
            seconds: self.seconds as int,
            hash: self.hash@,
            summary: self.summary@,
            author_name: self.author_name@,
            author_email: self.author_email@,
        }
    }
}

/// One line of a printed diff: its origin marker and its text.
#[derive(Debug)]
pub struct PatchLine {
    pub origin: char,
    pub content: String,
}

/// The view of a patch line.
pub ghost struct PatchView {
    pub origin: char,
    pub content: Seq<char>,
}

impl View for PatchLine {
    type V = PatchView;

    open spec fn view(&self) -> PatchView {
        PatchView { origin: self.origin, content: self.content@ }
    }
}

/// Relies on git2 (`Repository::discover`, `Oid::from_str`,
/// `find_commit` and the commit accessors): looks the commit up and
/// converts its header to plain values.  Absent or non-UTF-8 summary,
/// name or email become the empty string.
#[verifier::external_body]
fn commit_detail(hash: &str) -> (r: Result<CommitDetail, String>) {
    let look_up = || -> Result<CommitDetail, git2::Error> {
        let repo = Repository::discover(".")?;
        let c = repo.find_commit(Oid::from_str(hash)?)?;
        let author = c.author();
        Ok(CommitDetail {
            seconds: c.time().seconds(),
            hash: c.id().to_string(),
            summary: c.summary().ok().flatten().unwrap_or_default().to_string(),
            author_name: author.name().unwrap_or_default().to_string(),
            author_email: author.email().unwrap_or_default().to_string(),
        })
    };
    look_up().map_err(|e| e.to_string())
}

/// Relies on git2 (`diff_tree_to_tree` against the first parent, printed
/// with `DiffFormat::Patch`): hands back every printed line with its
/// origin marker, in print order, the content decoded lossily.
#[verifier::external_body]
fn commit_patch_lines(hash: &str) -> (r: Result<Vec<PatchLine>, String>) {
    let collect = || -> Result<Vec<PatchLine>, git2::Error> {
        let repo = Repository::discover(".")?;
        let commit = repo.find_commit(Oid::from_str(hash)?)?;
        let diff = repo.diff_tree_to_tree(Some(&commit.parent(0)?.tree()?), Some(&commit.tree()?), None)?;
        let mut out = Vec::new();
        diff.print(DiffFormat::Patch, |_, _, line| {
            let content = String::from_utf8_lossy(line.content()).into_owned();
            out.push(PatchLine { origin: line.origin(), content });
            true
        })?;
        Ok(out)
    };
    collect().map_err(|e| e.to_string())
}

/// The header block shown above the patch.
pub open spec fn commit_header(d: CommitDetailView) -> Seq<char> {
    "Commit: "@ + d.hash + "\nAuthor: "@ + d.author_name + " <"@ + d.author_email + ">\nDate: "@
        + rfc3339_utc(d.seconds) + "\n\n    "@ + d.summary + "\n\n"@
}

/// One rendered patch line: addition, removal and context markers are
/// kept in front of the text, any other origin is dropped.
pub open spec fn patch_line(l: PatchView) -> Seq<char> {
    (if l.origin == '+' || l.origin == '-' || l.origin == ' ' {
        seq![l.origin]
    } else {
        Seq::empty()
    }) + l.content
}

/// The rendered patch.
pub open spec fn patch_text(ls: Seq<PatchView>) -> Seq<char>
    decreases ls.len(),
{
    if ls.len() == 0 {
        Seq::empty()
    } else {
        patch_line(ls[0]) + patch_text(ls.drop_first())
    }
}

proof fn lemma_patch_text_snoc(ls: Seq<PatchView>, l: PatchView)
    ensures
        patch_text(ls.push(l)) == patch_text(ls) + patch_line(l),
    decreases ls.len(),
{
    if ls.len() == 0 {
        reveal_with_fuel(patch_text, 3);
        assert(ls.push(l) =~= seq![l]);
        assert((seq![l]).drop_first() =~= Seq::<PatchView>::empty());
        assert(patch_line(l) + Seq::<char>::empty() =~= patch_line(l));
        assert(patch_text(ls) + patch_line(l) =~= patch_line(l));
    } else {
        assert(ls.push(l).drop_first() =~= ls.drop_first().push(l));
        lemma_patch_text_snoc(ls.drop_first(), l);
        assert(patch_text(ls.push(l)) =~= patch_text(ls) + patch_line(l));
    }
}

/// Append the rendered patch to `out`.
#[verifier::loop_isolation(false)]
fn push_patch(out: &mut Vec<char>, lines: &Vec<PatchLine>)
    ensures
        final(out)@ == old(out)@ + patch_text(lines@.map_values(|l: PatchLine| l@)),
{
    let ghost lv = lines@.map_values(|l: PatchLine| l@);
    let ghost base = out@;
    proof {
        assert(lv.take(0) =~= Seq::<PatchView>::empty());
        assert(base + patch_text(lv.take(0)) =~= base);
    }
    let n = lines.len();
    let mut i: usize = 0;
    while i < n
        invariant
            0 <= i <= n,
            out@ == base + patch_text(lv.take(i as int)),
        decreases n - i,
    {
        let origin = lines[i].origin;
        if origin == '+' || origin == '-' || origin == ' ' {
            out.push(origin);
        }
        push_str_chars(out, lines[i].content.as_str());
        proof {
            assert(lv[i as int] == lines@[i as int]@);
            assert(lv.take(i + 1) =~= lv.take(i as int).push(lv[i as int]));
            lemma_patch_text_snoc(lv.take(i as int), lv[i as int]);
            assert(out@ =~= base + patch_text(lv.take(i + 1)));
        }
        i += 1;
    }
    proof {
        assert(lv.take(n as int) =~= lv);
    }
}

/// Append the header block to `out`.
fn push_commit_header(out: &mut Vec<char>, d: &CommitDetail)
    ensures
        final(out)@ == old(out)@ + commit_header(d@),
{
    push_str_chars(out, "Commit: ");
    push_str_chars(out, d.hash.as_str());
    push_str_chars(out, "\nAuthor: ");
    push_str_chars(out, d.author_name.as_str());
    push_str_chars(out, " <");
    push_str_chars(out, d.author_email.as_str());
    push_str_chars(out, ">\nDate: ");
    let date = rfc3339_of_seconds(d.seconds);
    push_str_chars(out, date.as_str());
    push_str_chars(out, "\n\n    ");
    push_str_chars(out, d.summary.as_str());
    push_str_chars(out, "\n\n");
    proof {
        assert(final(out)@ =~= old(out)@ + commit_header(d@));
    }
}

/// Show one commit in detail.  Whatever git reports, a success is
/// exactly a rendered header followed by a rendered patch.
pub fn show_commit_with_hash(hash: &str) -> (r: Result<String, String>)
    ensures
        r matches Ok(s) ==> exists|d: CommitDetailView, ls: Seq<PatchView>|
            s@ == commit_header(d) + patch_text(ls),
{
    let detail = match commit_detail(hash) {
        Err(e) => {
            return Err(e);
        },
        Ok(d) => d,
    };
    let lines = match commit_patch_lines(hash) {
        Err(e) => {
            return Err(e);
        },
        Ok(l) => l,
    };
    let mut out: Vec<char> = Vec::new();
    push_commit_header(&mut out, &detail);
    push_patch(&mut out, &lines);
    let s = chars_to_string(&out);
    proof {
        let d = detail@;
        let ls = lines@.map_values(|l: PatchLine| l@);
        assert(s@ == commit_header(d) + patch_text(ls));
    }
    Ok(s)
}

/// `git show`, from raw arguments: the `hash` member names the commit.
pub fn show_commit(arguments: &str) -> (r: Result<String, String>)
    ensures
        string_arg_outcome(arguments@, "hash"@) matches Err(m) ==> (r matches Err(e) && e@ == m),
        r matches Ok(s) ==> exists|d: CommitDetailView, ls: Seq<PatchView>|
            s@ == commit_header(d) + patch_text(ls),
{
    let hash = match string_argument(arguments, "hash") {
        Err(e) => {
            return Err(e);
        },
        Ok(h) => h,
    };
    show_commit_with_hash(hash.as_str())
}

} // verus!
