//! The lines the command line prints about entries.
use vstd::prelude::*;

use crate::text;
use crate::vault::{entry_views, string_views, EntryView, PasswordEntry};

verus! {

/// The line `list` prints for an entry: service and username only,
/// separated by a tab.
pub open spec fn listing_line(e: EntryView) -> Seq<char> {
    e.service + "\t"@ + e.username
}

/// What `list` prints: one line per entry, in order, or `No entries.`.
pub open spec fn spec_listing(entries: Seq<EntryView>) -> Seq<Seq<char>> {
    if entries.len() == 0 {
        seq!["No entries."@]
    } else {
        entries.map_values(|e: EntryView| listing_line(e))
    }
}

/// What `get` prints for an entry: username and password, then the URL and
/// the notes when they are not empty.
pub open spec fn spec_entry_lines(e: EntryView) -> Seq<Seq<char>> {
    let base = seq!["Username: "@ + e.username, "Password: "@ + e.password];
    let with_url = if e.url.len() > 0 {
        base.push("URL: "@ + e.url)
    } else {
        base
    };
    if e.notes.len() > 0 {
        with_url.push("Notes: "@ + e.notes)
    } else {
        with_url
    }
}

/// The line `list` prints for an entry.
fn make_listing_line(e: &PasswordEntry) -> (r: String)
    ensures
        r@ == listing_line(e@),
{
    let mut out = text::to_owned(e.service.as_str());
    out.append("\t");
    out.append(e.username.as_str());
    out
}

/// What `list` prints for the entries.
pub fn listing_lines(entries: &[PasswordEntry]) -> (r: Vec<String>)
    ensures
        string_views(r@) == spec_listing(entry_views(entries@)),
{
    let mut out: Vec<String> = Vec::new();
    if entries.len() == 0 {
        out.push(text::to_owned("No entries."));
        proof {
            assert(string_views(out@) =~= spec_listing(entry_views(entries@)));
        }
        return out;
    }
    let ghost views = entry_views(entries@);
    let mut i: usize = 0;
    while i < entries.len()
        invariant
            i <= entries@.len(),
            views == entry_views(entries@),
            views.len() == entries@.len(),
            string_views(out@) =~= views.subrange(0, i as int).map_values(
                |e: EntryView| listing_line(e),
            ),
        decreases entries@.len() - i,
    {
        let line = make_listing_line(&entries[i]);
        let ghost prev = out@;
        proof {
            assert(views[i as int] == entries@[i as int]@);
            assert(string_views(prev).len() == prev.len());
            assert(prev.len() == i);
        }
        out.push(line);
        i = i + 1;
        proof {
            assert(out@ == prev.push(line));
            assert forall|k: int| 0 <= k < i implies #[trigger] string_views(out@)[k] == listing_line(
                views[k],
            ) by {
                if k < i - 1 {
                    assert(out@[k] == prev[k]);
                    assert(string_views(prev)[k] == views.subrange(0, i - 1).map_values(
                        |e: EntryView| listing_line(e),
                    )[k]);
                } else {
                    assert(out@[k] == line);
                }
            }
            assert(string_views(out@) =~= views.subrange(0, i as int).map_values(
                |e: EntryView| listing_line(e),
            ));
        }
    }
    proof {
        assert(views.subrange(0, i as int) =~= views);
    }
    out
}

/// What `get` prints for an entry.
pub fn entry_lines(e: &PasswordEntry) -> (r: Vec<String>)
    ensures
        string_views(r@) == spec_entry_lines(e@),
{
    let mut out: Vec<String> = Vec::new();
    let mut l = text::to_owned("Username: ");
    l.append(e.username.as_str());
    out.push(l);
    let mut l = text::to_owned("Password: ");
    l.append(e.password.as_str());
    out.push(l);
    if !e.url.as_str().is_empty() {
        let mut l = text::to_owned("URL: ");
        l.append(e.url.as_str());
        out.push(l);
    }
    if !e.notes.as_str().is_empty() {
        let mut l = text::to_owned("Notes: ");
        l.append(e.notes.as_str());
        out.push(l);
    }
    proof {
        assert(string_views(out@) =~= spec_entry_lines(e@));
    }
    out
}

/// `list` prints service and username only: entries that agree on those
/// fields are listed alike, whatever their passwords, URLs and notes.
pub proof fn law_listing_ignores_secrets(a: Seq<EntryView>, b: Seq<EntryView>)
    requires
        a.len() == b.len(),
        forall|i: int|
            0 <= i < a.len() ==> (#[trigger] a[i]).service == b[i].service && a[i].username
                == b[i].username,
    ensures
        spec_listing(a) == spec_listing(b),
{
    if a.len() > 0 {
        assert(spec_listing(a) =~= spec_listing(b)) by {
            assert forall|i: int| 0 <= i < a.len() implies listing_line(a[i]) == listing_line(
                b[i],
            ) by {}
        }
    }
}

} // verus!
