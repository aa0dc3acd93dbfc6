//! The menu/file-browser state machine: a root path, the current directory,
//! the classified and sorted entry list, and the selection cursor.
//!
//! Listing a directory is the storage adapter's job; it hands `refresh` the
//! raw entries, and the verified code filters hidden names, classifies
//! directories and installable images, sorts, and re-clamps the selection.
use vstd::prelude::*;
use vstd::multiset::Multiset;
use vstd::seq_lib::group_to_multiset_ensures;
use vstd::seq_lib::to_multiset_insert;
use vstd::string::*;

use crate::paths::{file_name, join_path, parent_path, path_under, spec_file_name, spec_join,
    spec_parent, spec_under};
use crate::textfmt::{eq_fold, lemma_name_le_total, lemma_name_le_trans, name_le, spec_eq_fold,
    spec_name_le};

verus! {

/// One entry of the menu: the parent link, a sub-directory, or an
/// installable application image, the latter two with their full path.
#[derive(Clone, Debug)]
pub enum MenuItem {
    Back,
    Dir(String),
    App(String),
}

/// One raw directory entry as the storage adapter reports it.
#[derive(Clone, Debug)]
pub struct DirEntryInfo {
    pub name: String,
    pub is_dir: bool,
}

/// A discrete navigation action mapped from a key press.
#[derive(Clone, Copy, Debug, PartialEq, Eq, Structural)]
pub enum MenuAction {
    Up,
    Down,
    Select,
    Back,
    Refresh,
}

/// The sort group of an item (parent link, then directories, then apps)
/// paired with its path, the shape contracts compare items by.
pub open spec fn item_model(item: MenuItem) -> (int, Seq<char>) {
    match item {
        MenuItem::Back => (0int, Seq::empty()),
        MenuItem::Dir(p) => (1int, p@),
        MenuItem::App(p) => (2int, p@),
    }
}

/// The models of a whole item sequence.
pub open spec fn spec_models(s: Seq<MenuItem>) -> Seq<(int, Seq<char>)> {
    s.map_values(|it: MenuItem| item_model(it))
}

/// Menu order: by group, then case-insensitively by file name.
pub open spec fn spec_item_le(a: (int, Seq<char>), b: (int, Seq<char>)) -> bool {
    ||| a.0 < b.0
    ||| (a.0 == b.0 && spec_name_le(spec_file_name(a.1), spec_file_name(b.1)))
}

/// A sequence of items in menu order.
pub open spec fn spec_sorted_items(s: Seq<MenuItem>) -> bool {
    forall|i: int, j: int|
        0 <= i < j < s.len() ==> spec_item_le(item_model(s[i]), item_model(s[j]))
}

/// The menu order is total.
pub proof fn lemma_item_le_total(a: (int, Seq<char>), b: (int, Seq<char>))
    ensures
        spec_item_le(a, b) || spec_item_le(b, a),
{
    lemma_name_le_total(spec_file_name(a.1), spec_file_name(b.1));
}

/// The menu order is transitive.
pub proof fn lemma_item_le_trans(a: (int, Seq<char>), b: (int, Seq<char>), c: (int, Seq<char>))
    requires
        spec_item_le(a, b),
        spec_item_le(b, c),
    ensures
        spec_item_le(a, c),
{
    if a.0 == b.0 && b.0 == c.0 {
        lemma_name_le_trans(
            spec_file_name(a.1),
            spec_file_name(b.1),
            spec_file_name(c.1),
        );
    }
}

/// A hidden entry: its name starts with the reserved '.' marker.
pub open spec fn spec_hidden(name: Seq<char>) -> bool {
    name.len() > 0 && name[0] == '.'
}

/// An installable image name: it carries the "bin" extension,
/// compared case-insensitively, after a dot that is not the first character.
pub open spec fn spec_is_app_name(name: Seq<char>) -> bool {
    let k = crate::textfmt::spec_last_index_of(name, '.');
    k > 0 && spec_eq_fold(name.subrange(k + 1, name.len() as int), seq!['b', 'i', 'n'])
}

/// How one raw entry shows up in the menu, if it does: hidden names are
/// skipped, directories become group 1, app images group 2, with the
/// entry's full path under `current`.
pub open spec fn spec_entry_model(e: DirEntryInfo, current: Seq<char>) -> Option<(int, Seq<char>)> {
    if spec_hidden(e.name@) {
        None
    } else if e.is_dir {
        Some((1int, spec_join(current, e.name@)))
    } else if spec_is_app_name(e.name@) {
        Some((2int, spec_join(current, e.name@)))
    } else {
        None
    }
}

/// The classified listing, in listing order, before sorting.
pub open spec fn spec_classified(listing: Seq<DirEntryInfo>, current: Seq<char>) -> Seq<
    (int, Seq<char>),
>
    decreases listing.len(),
{
    if listing.len() == 0 {
        Seq::empty()
    } else {
        let rest = spec_classified(listing.drop_last(), current);
        match spec_entry_model(listing.last(), current) {
            Some(m) => rest.push(m),
            None => rest,
        }
    }
}

/// What the refreshed menu holds: the classified listing, plus the parent
/// link when the browser is not at the root.
pub open spec fn spec_menu_models(
    listing: Seq<DirEntryInfo>,
    current: Seq<char>,
    at_root: bool,
) -> Seq<(int, Seq<char>)> {
    if at_root {
        spec_classified(listing, current)
    } else {
        seq![(0int, Seq::<char>::empty())] + spec_classified(listing, current)
    }
}

/// Every classified model is a directory or an app entry, never group 0.
proof fn lemma_classified_groups(listing: Seq<DirEntryInfo>, current: Seq<char>)
    ensures
        forall|i: int|
            0 <= i < spec_classified(listing, current).len() ==> (#[trigger] spec_classified(
                listing,
                current,
            )[i]).0 == 1 || spec_classified(listing, current)[i].0 == 2,
    decreases listing.len(),
{
    if listing.len() != 0 {
        lemma_classified_groups(listing.drop_last(), current);
        let rest = spec_classified(listing.drop_last(), current);
        let full = spec_classified(listing, current);
        match spec_entry_model(listing.last(), current) {
            Some(m) => {
                assert(full == rest.push(m));
                assert(m.0 == 1 || m.0 == 2);
                assert forall|i: int| 0 <= i < full.len() implies (#[trigger] full[i]).0 == 1
                    || full[i].0 == 2 by {
                    if i < rest.len() {
                        assert(full[i] == rest[i]);
                    } else {
                        assert(full[i] == m);
                    }
                }
            },
            None => {
                assert(full == rest);
            },
        }
    }
}

/// The parent link sorts before every menu item.
proof fn lemma_back_le(it: MenuItem)
    ensures
        spec_item_le((0int, Seq::<char>::empty()), item_model(it)),
{
    let m = item_model(it);
    if m.0 == 0 {
        assert(spec_file_name(Seq::<char>::empty()) =~= Seq::<char>::empty());
        assert(spec_name_le(Seq::<char>::empty(), spec_file_name(m.1)));
    }
}

fn item_le(a: &MenuItem, b: &MenuItem) -> (r: bool)
    ensures
        r == spec_item_le(item_model(*a), item_model(*b)),
{
    let ga: u8 = match a {
        MenuItem::Back => 0,
        MenuItem::Dir(_) => 1,
        MenuItem::App(_) => 2,
    };
    let gb: u8 = match b {
        MenuItem::Back => 0,
        MenuItem::Dir(_) => 1,
        MenuItem::App(_) => 2,
    };
    if ga < gb {
        true
    } else if ga > gb {
        false
    } else {
        let na: &str = match a {
            MenuItem::Back => "",
            MenuItem::Dir(p) => p.as_str(),
            MenuItem::App(p) => p.as_str(),
        };
        let nb: &str = match b {
            MenuItem::Back => "",
            MenuItem::Dir(p) => p.as_str(),
            MenuItem::App(p) => p.as_str(),
        };
        proof {
            reveal_strlit("");
            assert(""@ =~= Seq::<char>::empty());
        }
        name_le(file_name(na), file_name(nb))
    }
}

fn classify_entry(e: &DirEntryInfo, current: &str) -> (r: Option<MenuItem>)
    ensures
        match r {
            Some(item) => spec_entry_model(*e, current@) == Some(item_model(item)),
            None => spec_entry_model(*e, current@) is None,
        },
{
    let name = e.name.as_str();
    let len = name.unicode_len();
    if len > 0 && name.get_char(0) == '.' {
        return None;
    }
    if e.is_dir {
        return Some(MenuItem::Dir(join_path(current, name)));
    }
    match crate::textfmt::last_index_of(name, '.') {
        Some(k) if k > 0 => {
            proof {
                crate::textfmt::lemma_last_index_of_props(name@, '.');
            }
            let ext = name.substring_char(k + 1, len);
            if eq_fold(ext, "bin") {
                proof {
                    reveal_strlit("bin");
                    assert("bin"@ =~= seq!['b', 'i', 'n']);
                }
                Some(MenuItem::App(join_path(current, name)))
            } else {
                proof {
                    reveal_strlit("bin");
                    assert("bin"@ =~= seq!['b', 'i', 'n']);
                }
                None
            }
        },
        _ => None,
    }
}

/// Inserts an item into a sorted vector, keeping it sorted.
fn insert_sorted(out: &mut Vec<MenuItem>, item: MenuItem)
    requires
        spec_sorted_items(old(out)@),
    ensures
        spec_sorted_items(final(out)@),
        spec_models(final(out)@).to_multiset() == spec_models(old(out)@).to_multiset().insert(
            item_model(item),
        ),
        final(out)@.len() == old(out)@.len() + 1,
{
    let ghost orig = out@;
    let mut idx: usize = 0;
    loop
        invariant
            idx <= out@.len(),
            out@ == orig,
            spec_sorted_items(out@),
            forall|j: int| 0 <= j < idx ==> spec_item_le(item_model(out@[j]), item_model(item)),
        ensures
            idx <= orig.len(),
            forall|j: int| 0 <= j < idx ==> spec_item_le(item_model(orig[j]), item_model(item)),
            idx < orig.len() ==> !spec_item_le(item_model(orig[idx as int]), item_model(item)),
        decreases out@.len() - idx,
    {
        if idx == out.len() {
            break;
        }
        if !item_le(&out[idx], &item) {
            break;
        }
        idx = idx + 1;
    }
    let ghost brk = idx as int;
    out.insert(idx, item);
    proof {
        let new = out@;
        assert(new == orig.insert(brk, item));
        assert forall|i: int, j: int| 0 <= i < j < new.len() implies spec_item_le(
            item_model(new[i]),
            item_model(new[j]),
        ) by {
            if j < brk {
                assert(new[i] == orig[i] && new[j] == orig[j]);
            } else if i < brk && j == brk {
                assert(new[i] == orig[i] && new[j] == item);
            } else if i < brk && j > brk {
                assert(new[i] == orig[i] && new[j] == orig[j - 1]);
            } else if i == brk && j > brk {
                assert(new[i] == item && new[j] == orig[j - 1]);
                lemma_item_le_total(item_model(orig[brk]), item_model(item));
                assert(spec_item_le(item_model(item), item_model(orig[brk])));
                if j - 1 == brk {
                    assert(new[j] == orig[brk]);
                } else {
                    assert(spec_item_le(item_model(orig[brk]), item_model(orig[j - 1])));
                    lemma_item_le_trans(
                        item_model(item),
                        item_model(orig[brk]),
                        item_model(orig[j - 1]),
                    );
                }
            } else {
                assert(i > brk);
                assert(new[i] == orig[i - 1] && new[j] == orig[j - 1]);
            }
        }
        assert(spec_models(new) =~= spec_models(orig).insert(brk, item_model(item)));
        to_multiset_insert(spec_models(orig), brk, item_model(item));
    }
}

/// Classifies, filters and sorts a directory listing into menu items,
/// prepending the parent link when not at the root.
pub fn build_menu_items(listing: &Vec<DirEntryInfo>, at_root: bool, current: &str) -> (r: Vec<
    MenuItem,
>)
    ensures
        spec_sorted_items(r@),
        spec_models(r@).to_multiset() == spec_menu_models(
            listing@,
            current@,
            at_root,
        ).to_multiset(),
        !at_root ==> r@.len() > 0 && (r@[0] is Back),
        at_root ==> forall|i: int| 0 <= i < r@.len() ==> !(#[trigger] r@[i] is Back),
{
    broadcast use group_to_multiset_ensures;

    let mut out: Vec<MenuItem> = Vec::new();
    proof {
        assert(spec_models(out@) =~= spec_classified(listing@.subrange(0, 0), current@));
    }
    let mut i: usize = 0;
    while i < listing.len()
        invariant
            i <= listing@.len(),
            spec_sorted_items(out@),
            spec_models(out@).to_multiset() == spec_classified(
                listing@.subrange(0, i as int),
                current@,
            ).to_multiset(),
        decreases listing@.len() - i,
    {
        let ghost prefix = listing@.subrange(0, i as int);
        let ghost prefix1 = listing@.subrange(0, i + 1);
        proof {
            assert(prefix1.drop_last() =~= prefix);
            assert(prefix1.last() == listing@[i as int]);
        }
        match classify_entry(&listing[i], current) {
            Some(item) => {
                insert_sorted(&mut out, item);
                proof {
                    assert(spec_classified(prefix1, current@) == spec_classified(
                        prefix,
                        current@,
                    ).push(item_model(item)));
                    vstd::seq_lib::to_multiset_build(
                        spec_classified(prefix, current@),
                        item_model(item),
                    );
                }
            },
            None => {
                proof {
                    assert(spec_classified(prefix1, current@) == spec_classified(
                        prefix,
                        current@,
                    ));
                }
            },
        }
        i = i + 1;
    }
    proof {
        assert(listing@.subrange(0, listing@.len() as int) =~= listing@);
    }
    if !at_root {
        let ghost before = out@;
        let ghost back_model = (0int, Seq::<char>::empty());
        out.insert(0, MenuItem::Back);
        proof {
            // order: the parent link sorts before everything already there
            assert(out@ == before.insert(0, MenuItem::Back));
            assert forall|i2: int, j2: int| 0 <= i2 < j2 < out@.len() implies spec_item_le(
                item_model(out@[i2]),
                item_model(out@[j2]),
            ) by {
                if i2 == 0 {
                    assert(out@[j2] == before[j2 - 1]);
                    lemma_back_le(out@[j2]);
                } else {
                    assert(out@[i2] == before[i2 - 1] && out@[j2] == before[j2 - 1]);
                }
            }
            // content: one more model, the parent link's
            assert(spec_models(out@) =~= spec_models(before).insert(0, back_model));
            to_multiset_insert(spec_models(before), 0, back_model);
            let target = spec_menu_models(listing@, current@, at_root);
            assert(target == seq![back_model] + spec_classified(listing@, current@));
            vstd::seq_lib::lemma_multiset_commutative(
                seq![back_model],
                spec_classified(listing@, current@),
            );
            assert(seq![back_model].to_multiset() =~= Multiset::<(int, Seq<char>)>::empty().insert(
                back_model,
            )) by {
                assert(seq![back_model] =~= Seq::<(int, Seq<char>)>::empty().push(back_model));
            }
            assert(spec_models(out@).to_multiset() =~= target.to_multiset());
            // the parent link lands at index 0, and only there
            assert(out@[0] is Back);
        }
    } else {
        proof {
            lemma_classified_groups(listing@, current@);
            assert forall|i2: int| 0 <= i2 < out@.len() implies !(#[trigger] out@[i2] is Back) by {
                if out@[i2] is Back {
                    let models = spec_models(out@);
                    assert(models[i2] == (0int, Seq::<char>::empty()));
                    assert(models.contains(models[i2]));
                    assert(models.to_multiset().count(models[i2]) > 0);
                    let classified = spec_classified(listing@, current@);
                    assert(classified.to_multiset().count(models[i2]) > 0);
                    assert(classified.contains(models[i2]));
                    let k = choose|k: int|
                        0 <= k < classified.len() && classified[k] == models[i2];
                    assert(classified[k].0 == 1 || classified[k].0 == 2);
                }
            }
        }
    }
    out
}

/// The browser state: root path, current path, the sorted entry list,
/// and the selection index.
#[derive(Debug)]
pub struct MenuState {
    pub root: String,
    pub current: String,
    pub items: Vec<MenuItem>,
    pub selected: usize,
}

/// Where the selection lands after a refresh: clamped into the new list.
pub open spec fn spec_clamped(selected: int, len: int) -> int {
    if len == 0 {
        0
    } else if selected >= len {
        len - 1
    } else {
        selected
    }
}

/// The selection after one upward move over `len` items, wrapping at 0.
pub open spec fn spec_move_up(selected: int, len: int) -> int {
    if len == 0 {
        selected
    } else if selected == 0 {
        len - 1
    } else {
        selected - 1
    }
}

/// The selection after one downward move over `len` items, wrapping at the end.
pub open spec fn spec_move_down(selected: int, len: int) -> int {
    if len == 0 {
        selected
    } else {
        (selected + 1) % len
    }
}

impl MenuState {
    /// The selection always points into the list, or sits at 0 when empty.
    pub open spec fn well_formed(self) -> bool {
        if self.items@.len() == 0 {
            self.selected == 0
        } else {
            (self.selected as int) < self.items@.len()
        }
    }

    /// Creates a browser over `root`, starting in `current`, with no
    /// entries listed yet.
    pub fn new(root: String, current: String) -> (s: Self)
        ensures
            s.root == root,
            s.current == current,
            s.items@.len() == 0,
            s.selected == 0,
            s.well_formed(),
    {
        Self { root, current, items: Vec::new(), selected: 0 }
    }

    /// Rebuilds the entry list from a fresh listing of the current
    /// directory and re-clamps the selection.
    pub fn refresh(&mut self, listing: &Vec<DirEntryInfo>)
        ensures
            final(self).root == old(self).root,
            final(self).current == old(self).current,
            spec_sorted_items(final(self).items@),
            spec_models(final(self).items@).to_multiset() == spec_menu_models(
                listing@,
                old(self).current@,
                old(self).current@ == old(self).root@,
            ).to_multiset(),
            old(self).current@ != old(self).root@ ==> final(self).items@.len() > 0 && (final(self).items@[0] is Back),
            old(self).current@ == old(self).root@ ==> forall|i: int|
                0 <= i < final(self).items@.len() ==> !(#[trigger] final(self).items@[i] is Back),
            final(self).selected as int == spec_clamped(
                old(self).selected as int,
                final(self).items@.len() as int,
            ),
            final(self).well_formed(),
    {
        let at_root = self.current == self.root;
        self.items = build_menu_items(listing, at_root, self.current.as_str());
        if self.items.len() == 0 {
            self.selected = 0;
        } else if self.selected >= self.items.len() {
            self.selected = self.items.len() - 1;
        }
    }

    /// The entry under the cursor, or nothing when the list is empty.
    pub fn selected_item(&self) -> (r: Option<&MenuItem>)
        ensures
            match r {
                Some(item) => (self.selected as int) < self.items@.len() && *item == self.items@[self.selected as int],
                None => self.items@.len() <= self.selected as int,
            },
    {
        if self.selected < self.items.len() {
            Some(&self.items[self.selected])
        } else {
            None
        }
    }

    /// Moves the selection up one entry, wrapping to the end at the top;
    /// does nothing on an empty list.
    pub fn move_up(&mut self)
        requires
            old(self).well_formed(),
        ensures
            final(self).root == old(self).root,
            final(self).current == old(self).current,
            final(self).items == old(self).items,
            final(self).selected as int == spec_move_up(
                old(self).selected as int,
                old(self).items@.len() as int,
            ),
            final(self).well_formed(),
    {
        if self.items.len() == 0 {
            return ;
        }
        if self.selected == 0 {
            self.selected = self.items.len() - 1;
        } else {
            self.selected = self.selected - 1;
        }
    }

    /// Moves the selection down one entry, wrapping to the top at the end;
    /// does nothing on an empty list.
    pub fn move_down(&mut self)
        requires
            old(self).well_formed(),
        ensures
            final(self).root == old(self).root,
            final(self).current == old(self).current,
            final(self).items == old(self).items,
            final(self).selected as int == spec_move_down(
                old(self).selected as int,
                old(self).items@.len() as int,
            ),
            final(self).well_formed(),
    {
        if self.items.len() == 0 {
            return ;
        }
        self.selected = (self.selected + 1) % self.items.len();
    }

    /// Steps back to the parent directory unless already at the root;
    /// resets the selection. The caller refreshes afterwards.
    pub fn go_back(&mut self) -> (moved: bool)
        ensures
            final(self).root == old(self).root,
            final(self).items == old(self).items,
            old(self).current@ == old(self).root@ ==> !moved && *final(self) == *old(self),
            old(self).current@ != old(self).root@ ==> match spec_parent(old(self).current@) {
                Some(p) => moved && final(self).current@ == p && final(self).selected == 0,
                None => !moved && *final(self) == *old(self),
            },
    {
        if self.current == self.root {
            return false;
        }
        match parent_path(self.current.as_str()) {
            Some(p) => {
                self.current = p;
                self.selected = 0;
                true
            },
            None => false,
        }
    }

    /// Enters a directory; resets the selection. The caller refreshes
    /// afterwards.
    pub fn enter_dir(&mut self, path: String)
        ensures
            final(self).root == old(self).root,
            final(self).items == old(self).items,
            final(self).current == path,
            final(self).selected == 0,
    {
        self.current = path;
        self.selected = 0;
    }
}

/// Wherever a run of up/down moves takes a non-empty menu, the selection
/// stays inside the list: each step wraps circularly and never escapes
/// `[0, len)`.
pub open spec fn spec_apply_moves(selected: int, len: int, moves: Seq<bool>) -> int
    decreases moves.len(),
{
    if moves.len() == 0 {
        selected
    } else {
        let rest = spec_apply_moves(selected, len, moves.drop_last());
        if moves.last() {
            spec_move_up(rest, len)
        } else {
            spec_move_down(rest, len)
        }
    }
}

/// Law: on a non-empty list, any sequence of up/down moves keeps the
/// selection within `[0, len)`.
pub proof fn lemma_moves_stay_in_bounds(selected: int, len: int, moves: Seq<bool>)
    requires
        len > 0,
        0 <= selected < len,
    ensures
        0 <= spec_apply_moves(selected, len, moves) < len,
    decreases moves.len(),
{
    if moves.len() > 0 {
        lemma_moves_stay_in_bounds(selected, len, moves.drop_last());
    }
}

/// The display label of an entry: ".." for the parent link, the file name
/// in brackets for a directory, the bare file name for an app image.
pub open spec fn spec_display_name(item: MenuItem) -> Seq<char> {
    match item {
        MenuItem::Back => seq!['.', '.'],
        MenuItem::Dir(p) => seq!['['] + spec_file_name(p@) + seq![']'],
        MenuItem::App(p) => spec_file_name(p@),
    }
}

/// Renders the display label of a menu entry.
pub fn display_name(item: &MenuItem) -> (r: String)
    ensures
        r@ == spec_display_name(*item),
{
    match item {
        MenuItem::Back => {
            let s = String::from_str("..");
            proof {
                reveal_strlit("..");
                assert(s@ =~= seq!['.', '.']);
            }
            s
        },
        MenuItem::Dir(p) => {
            let s = String::from_str("[").concat(file_name(p.as_str())).concat("]");
            proof {
                reveal_strlit("[");
                reveal_strlit("]");
                assert(s@ =~= spec_display_name(*item));
            }
            s
        },
        MenuItem::App(p) => String::from_str(file_name(p.as_str())),
    }
}

/// The breadcrumb text: "/" at the root, otherwise '/' plus the part of
/// the current path below the root (or the whole path if it strayed).
pub open spec fn spec_path_display(root: Seq<char>, current: Seq<char>) -> Seq<char> {
    if current == root {
        seq!['/']
    } else if spec_under(root, current) {
        seq!['/'] + current.subrange(root.len() as int + 1, current.len() as int)
    } else {
        seq!['/'] + current
    }
}

/// Renders the breadcrumb line for the menu header.
pub fn menu_path_display(menu: &MenuState) -> (r: String)
    ensures
        r@ == spec_path_display(menu.root@, menu.current@),
{
    proof {
        reveal_strlit("/");
    }
    if menu.current == menu.root {
        let s = String::from_str("/");
        proof {
            assert(s@ =~= spec_path_display(menu.root@, menu.current@));
        }
        return s;
    }
    let current = menu.current.as_str();
    let cur_len = current.unicode_len();
    let root_len = menu.root.as_str().unicode_len();
    if path_under(menu.root.as_str(), current) {
        let rel = current.substring_char(root_len + 1, cur_len);
        let s = String::from_str("/").concat(rel);
        proof {
            assert(s@ =~= spec_path_display(menu.root@, menu.current@));
        }
        s
    } else {
        let s = String::from_str("/").concat(current);
        proof {
            assert(s@ =~= spec_path_display(menu.root@, menu.current@));
        }
        s
    }
}

} // verus!
