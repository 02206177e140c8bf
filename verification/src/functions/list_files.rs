//! `ls`: rows describing the entries of a directory.
//!
//! Reading the directory and its metadata is the binary's business; the
//! rows themselves — permission bits, link count, size, age and name —
//! are rendered here, exactly.

use vstd::prelude::*;

use crate::text::{chars_to_string, decimal_padded, push_decimal_padded, push_str_chars};

verus! {

/// The permission character at column `k` of the nine-column block:
/// `r`, `w` or `x` when bit `8 - k` of the mode is set, `-` otherwise.
pub open spec fn rwx_char(perms: u32, k: int) -> char {
    if perms & (1u32 << ((8 - k) as u32)) != 0 {
        if k % 3 == 0 {
            'r'
        } else if k % 3 == 1 {
            'w'
        } else {
            'x'
        }
    } else {
        '-'
    }
}

/// The nine-column permission block of a mode value.
pub open spec fn rwx_spec(perms: u32) -> Seq<char> {
    Seq::new(9, |k: int| rwx_char(perms, k))
}

/// `0b111_101_101` -> `rwxr-xr-x`.
pub fn rwx(perms: u32) -> (r: String)
    ensures
        r@ == rwx_spec(perms),
{
    let mut out: Vec<char> = Vec::new();
    let mut k: usize = 0;
    while k < 9
        invariant
            0 <= k <= 9,
            out@.len() == k,
            forall|m: int| 0 <= m < k ==> out@[m] == rwx_char(perms, m),
        decreases 9 - k,
    {
        let shift = (8 - k) as u32;
        let c = if perms & (1u32 << shift) != 0 {
            if k % 3 == 0 {
                'r'
            } else if k % 3 == 1 {
                'w'
            } else {
                'x'
            }
        } else {
            '-'
        };
        out.push(c);
        k += 1;
    }
    proof {
        assert(out@ =~= rwx_spec(perms));
    }
    chars_to_string(&out)
}

/// One directory entry, reduced to the plain values a row shows.
#[derive(Debug)]
pub struct EntryMeta {
    pub is_dir: bool,
    pub is_symlink: bool,
    pub mode: u32,
    pub nlink: u64,
    pub size: u64,
    pub mtime_secs: u64,
    pub name: String,
}

/// The view of a directory entry.
pub ghost struct EntryView {
    pub is_dir: bool,
    pub is_symlink: bool,
    pub mode: u32,
    pub nlink: int,
    pub size: int,
    pub mtime_secs: int,
    pub name: Seq<char>,
}

impl View for EntryMeta {
    type V = EntryView;

    open spec fn view(&self) -> EntryView {
        EntryView {
            is_dir: self.is_dir,
            is_symlink: self.is_symlink,
            mode: self.mode,
            nlink: self.nlink as int,
            size: self.size as int,
            mtime_secs: self.mtime_secs as int,
            name: self.name@,
        }
    }
}

/// The file-type column: directory, symlink, or neither.
pub open spec fn type_char(e: EntryView) -> char {
    if e.is_dir {
        'd'
    } else if e.is_symlink {
        'l'
    } else {
        '-'
    }
}

/// One row of `ls`, without its line break.
pub open spec fn entry_line(e: EntryView) -> Seq<char> {
    seq![type_char(e)] + rwx_spec(e.mode) + " "@ + decimal_padded(e.nlink, 4) + " "@
        + decimal_padded(e.size, 8) + "B "@ + decimal_padded(e.mtime_secs, 8) + " "@ + e.name
}

/// The whole listing, one row per entry, each ended by a line break.
pub open spec fn listing(es: Seq<EntryView>) -> Seq<char>
    decreases es.len(),
{
    if es.len() == 0 {
        Seq::empty()
    } else {
        entry_line(es[0]) + "\n"@ + listing(es.drop_first())
    }
}

proof fn lemma_listing_snoc(es: Seq<EntryView>, e: EntryView)
    ensures
        listing(es.push(e)) == listing(es) + entry_line(e) + "\n"@,
    decreases es.len(),
{
    if es.len() == 0 {
        reveal_with_fuel(listing, 3);
        assert(es.push(e) =~= seq![e]);
        assert((seq![e]).drop_first() =~= Seq::<EntryView>::empty());
        assert(entry_line(e) + "\n"@ + Seq::<char>::empty() =~= entry_line(e) + "\n"@);
        assert(listing(es) + entry_line(e) + "\n"@ =~= entry_line(e) + "\n"@);
    } else {
        assert(es.push(e).drop_first() =~= es.drop_first().push(e));
        lemma_listing_snoc(es.drop_first(), e);
        assert(listing(es.push(e)) =~= listing(es) + entry_line(e) + "\n"@);
    }
}

/// One row of `ls`.
pub fn describe_entry(e: &EntryMeta) -> (r: String)
    ensures
        r@ == entry_line(e@),
{
    let mut out: Vec<char> = Vec::new();
    out.push(if e.is_dir {
        'd'
    } else if e.is_symlink {
        'l'
    } else {
        '-'
    });
    let bits = rwx(e.mode);
    push_str_chars(&mut out, bits.as_str());
    push_str_chars(&mut out, " ");
    push_decimal_padded(&mut out, e.nlink, 4);
    push_str_chars(&mut out, " ");
    push_decimal_padded(&mut out, e.size, 8);
    push_str_chars(&mut out, "B ");
    push_decimal_padded(&mut out, e.mtime_secs, 8);
    push_str_chars(&mut out, " ");
    push_str_chars(&mut out, e.name.as_str());
    proof {
        assert(out@ =~= entry_line(e@));
    }
    chars_to_string(&out)
}

/// Render the listing for the given entries.
#[verifier::loop_isolation(false)]
pub fn format_listing(entries: &Vec<EntryMeta>) -> (r: String)
    ensures
        r@ == listing(entries@.map_values(|e: EntryMeta| e@)),
{
    let ghost ev = entries@.map_values(|e: EntryMeta| e@);
    let mut out: Vec<char> = Vec::new();
    proof {
        assert(ev.take(0) =~= Seq::<EntryView>::empty());
    }
    let n = entries.len();
    let mut i: usize = 0;
    while i < n
        invariant
            0 <= i <= n,
            out@ == listing(ev.take(i as int)),
        decreases n - i,
    {
        let row = describe_entry(&entries[i]);
        push_str_chars(&mut out, row.as_str());
        push_str_chars(&mut out, "\n");
        proof {
            assert(ev[i as int] == entries@[i as int]@);
            assert(ev.take(i + 1) =~= ev.take(i as int).push(ev[i as int]));
            lemma_listing_snoc(ev.take(i as int), ev[i as int]);
            assert(out@ =~= listing(ev.take(i + 1)));
        }
        i += 1;
    }
    proof {
        assert(ev.take(n as int) =~= ev);
    }
    chars_to_string(&out)
}

} // verus!
