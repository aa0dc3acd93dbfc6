//! Storage listing helpers: given a directory listing from the storage
//! adapter, keep the files with a wanted extension and sort them by name,
//! case-insensitively.
use vstd::prelude::*;
use vstd::seq_lib::to_multiset_insert;
use vstd::string::*;

use crate::textfmt::{
    eq_fold, lemma_last_index_of_props, lemma_name_le_total, lemma_name_le_trans, last_index_of,
    name_le, spec_eq_fold, spec_last_index_of, spec_name_le,
};

verus! {

/// One file on the storage card: its bare name and its full path.
#[derive(Clone, Debug)]
pub struct SdFileEntry {
    pub name: String,
    pub path: String,
}

/// The name and path views of an entry, the shape contracts compare by.
pub open spec fn entry_model(e: SdFileEntry) -> (Seq<char>, Seq<char>) {
    (e.name@, e.path@)
}

/// The models of a whole entry sequence.
pub open spec fn spec_entry_models(s: Seq<SdFileEntry>) -> Seq<(Seq<char>, Seq<char>)> {
    s.map_values(|e: SdFileEntry| entry_model(e))
}

/// An extension pattern with its leading dots removed.
pub open spec fn spec_trim_dots(s: Seq<char>) -> Seq<char>
    decreases s.len(),
{
    if s.len() > 0 && s[0] == '.' {
        spec_trim_dots(s.subrange(1, s.len() as int))
    } else {
        s
    }
}

/// The extension of a file name: what follows the last dot, provided that
/// dot is not the leading character.
pub open spec fn spec_name_extension(name: Seq<char>) -> Option<Seq<char>> {
    let k = spec_last_index_of(name, '.');
    if k > 0 {
        Some(name.subrange(k + 1, name.len() as int))
    } else {
        None
    }
}

/// Whether a file name carries the wanted extension, case-insensitively.
pub open spec fn spec_has_extension(name: Seq<char>, ext: Seq<char>) -> bool {
    match spec_name_extension(name) {
        Some(e) => spec_eq_fold(e, ext),
        None => false,
    }
}

/// The kept entries of a listing, in listing order.
pub open spec fn spec_kept_entries(listing: Seq<SdFileEntry>, ext: Seq<char>) -> Seq<
    (Seq<char>, Seq<char>),
>
    decreases listing.len(),
{
    if listing.len() == 0 {
        Seq::empty()
    } else {
        let rest = spec_kept_entries(listing.drop_last(), ext);
        if spec_has_extension(listing.last().name@, ext) {
            rest.push(entry_model(listing.last()))
        } else {
            rest
        }
    }
}

/// Entries in name order, case-insensitively.
pub open spec fn spec_sorted_entries(s: Seq<SdFileEntry>) -> bool {
    forall|i: int, j: int| 0 <= i < j < s.len() ==> spec_name_le(s[i].name@, s[j].name@)
}

fn trim_dots(s: &str) -> (r: &str)
    ensures
        r@ == spec_trim_dots(s@),
{
    let len = s.unicode_len();
    let mut i: usize = 0;
    proof {
        assert(s@.subrange(0, len as int) =~= s@);
    }
    loop
        invariant
            i <= len,
            len == s@.len(),
            spec_trim_dots(s@) == spec_trim_dots(s@.subrange(i as int, len as int)),
        ensures
            i <= len,
            spec_trim_dots(s@) == s@.subrange(i as int, len as int),
        decreases len - i,
    {
        if i == len {
            proof {
                assert(s@.subrange(i as int, len as int).len() == 0);
            }
            break;
        }
        if s.get_char(i) != '.' {
            proof {
                assert(s@.subrange(i as int, len as int)[0] == s@[i as int]);
            }
            break;
        }
        proof {
            assert(s@.subrange(i as int, len as int)[0] == s@[i as int]);
            assert(s@.subrange(i as int, len as int).subrange(
                1,
                s@.subrange(i as int, len as int).len() as int,
            ) =~= s@.subrange(i + 1, len as int));
        }
        i = i + 1;
    }
    s.substring_char(i, len)
}

fn has_extension(name: &str, ext: &str) -> (r: bool)
    ensures
        r == spec_has_extension(name@, ext@),
{
    let len = name.unicode_len();
    match last_index_of(name, '.') {
        Some(k) if k > 0 => {
            proof {
                lemma_last_index_of_props(name@, '.');
            }
            eq_fold(name.substring_char(k + 1, len), ext)
        },
        _ => false,
    }
}

/// Inserts an entry into a name-sorted vector, keeping it sorted.
fn insert_entry_sorted(out: &mut Vec<SdFileEntry>, entry: SdFileEntry)
    requires
        spec_sorted_entries(old(out)@),
    ensures
        spec_sorted_entries(final(out)@),
        spec_entry_models(final(out)@).to_multiset() == spec_entry_models(
            old(out)@,
        ).to_multiset().insert(entry_model(entry)),
{
    let ghost orig = out@;
    let mut idx: usize = 0;
    loop
        invariant
            idx <= out@.len(),
            out@ == orig,
            spec_sorted_entries(out@),
            forall|j: int| 0 <= j < idx ==> spec_name_le(out@[j].name@, entry.name@),
        ensures
            idx <= orig.len(),
            forall|j: int| 0 <= j < idx ==> spec_name_le(orig[j].name@, entry.name@),
            idx < orig.len() ==> !spec_name_le(orig[idx as int].name@, entry.name@),
        decreases out@.len() - idx,
    {
        if idx == out.len() {
            break;
        }
        if !name_le(out[idx].name.as_str(), entry.name.as_str()) {
            break;
        }
        idx = idx + 1;
    }
    let ghost brk = idx as int;
    out.insert(idx, entry);
    proof {
        let new = out@;
        assert(new == orig.insert(brk, entry));
        assert forall|i: int, j: int| 0 <= i < j < new.len() implies spec_name_le(
            new[i].name@,
            new[j].name@,
        ) by {
            if j < brk {
                assert(new[i] == orig[i] && new[j] == orig[j]);
            } else if i < brk && j == brk {
                assert(new[i] == orig[i] && new[j] == entry);
            } else if i < brk && j > brk {
                assert(new[i] == orig[i] && new[j] == orig[j - 1]);
            } else if i == brk && j > brk {
                assert(new[i] == entry && new[j] == orig[j - 1]);
                lemma_name_le_total(orig[brk].name@, entry.name@);
                if j - 1 == brk {
                    assert(new[j] == orig[brk]);
                } else {
                    lemma_name_le_trans(entry.name@, orig[brk].name@, orig[j - 1].name@);
                }
            } else {
                assert(i > brk);
                assert(new[i] == orig[i - 1] && new[j] == orig[j - 1]);
            }
        }
        assert(spec_entry_models(new) =~= spec_entry_models(orig).insert(brk, entry_model(entry)));
        to_multiset_insert(spec_entry_models(orig), brk, entry_model(entry));
    }
}

/// Keeps the entries whose name carries `extension` (leading dots on the
/// pattern ignored, case-insensitive) and sorts them by name.
pub fn list_files_with_extension(listing: Vec<SdFileEntry>, extension: &str) -> (r: Vec<
    SdFileEntry,
>)
    ensures
        spec_sorted_entries(r@),
        spec_entry_models(r@).to_multiset() == spec_kept_entries(
            listing@,
            spec_trim_dots(extension@),
        ).to_multiset(),
{
    let ext = trim_dots(extension);
    let ghost ext_view = spec_trim_dots(extension@);
    let ghost orig = listing@;
    let mut out: Vec<SdFileEntry> = Vec::new();
    let mut rest = listing;
    proof {
        assert(spec_entry_models(out@) =~= spec_kept_entries(orig.subrange(0, 0), ext_view));
        assert(orig.subrange(0, orig.len() as int) =~= orig);
    }
    while rest.len() > 0
        invariant
            rest@.len() <= orig.len(),
            ext@ == ext_view,
            orig.subrange(orig.len() - rest@.len(), orig.len() as int) =~= rest@,
            spec_sorted_entries(out@),
            spec_entry_models(out@).to_multiset() == spec_kept_entries(
                orig.subrange(0, orig.len() - rest@.len()),
                ext_view,
            ).to_multiset(),
        decreases rest@.len(),
    {
        let ghost n = orig.len() - rest@.len();
        let ghost prefix = orig.subrange(0, n);
        let ghost prefix1 = orig.subrange(0, n + 1);
        let ghost rest_before = rest@;
        let entry = rest.remove(0);
        proof {
            assert(rest@ =~= rest_before.remove(0));
            assert(entry == rest_before[0]);
            assert(entry == orig[n]);
            assert(orig.subrange(orig.len() - rest@.len(), orig.len() as int) =~= rest@);
            assert(prefix1.drop_last() =~= prefix);
            assert(prefix1.last() == orig[n]);
        }
        let keep = has_extension(entry.name.as_str(), ext);
        if keep {
            insert_entry_sorted(&mut out, entry);
            proof {
                assert(spec_kept_entries(prefix1, ext_view) == spec_kept_entries(
                    prefix,
                    ext_view,
                ).push(entry_model(orig[n])));
                vstd::seq_lib::to_multiset_build(
                    spec_kept_entries(prefix, ext_view),
                    entry_model(orig[n]),
                );
            }
        } else {
            proof {
                assert(spec_kept_entries(prefix1, ext_view) == spec_kept_entries(
                    prefix,
                    ext_view,
                ));
            }
        }
    }
    proof {
        assert(orig.subrange(0, orig.len() as int) =~= orig);
    }
    out
}

} // verus!
