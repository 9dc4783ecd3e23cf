//! The languages that can be transcribed, and their order in the menu.

use vstd::prelude::*;

use crate::text;

verus! {

/// A language: the code that the model knows it by, and its name in the menu.
#[derive(Debug)]
pub struct Language {
    pub code: String,
    pub label: String,
}

/// The code of the language on top of the menu.
pub const PINNED_FIRST: &'static str = "cs";

/// The code of the language below it.
pub const PINNED_SECOND: &'static str = "en";

/// Whether a language stands on top of the menu.
pub open spec fn is_pinned(code: Seq<char>) -> bool {
    code == PINNED_FIRST@ || code == PINNED_SECOND@
}

/// The name of the language with a code, looked up from position `from` on: that of the first
/// one in the list that has it. A code that is not in the list stands for itself.
pub open spec fn label_from(languages: Seq<Language>, code: Seq<char>, from: nat) -> Seq<char>
    decreases languages.len() - from,
{
    if from >= languages.len() {
        code
    } else if languages[from as int].code@ == code {
        languages[from as int].label@
    } else {
        label_from(languages, code, from + 1)
    }
}

fn same_text(a: &str, b: &str) -> (same: bool)
    ensures
        same == (a@ == b@),
{
    text::spells(text::chars_of(a).as_slice(), b)
}

/// The name of the language with a code.
pub fn label_for(languages: &Vec<Language>, code: &str) -> (label: String)
    ensures
        label@ == label_from(languages@, code@, 0),
{
    let mut i: usize = 0;
    while i < languages.len()
        invariant
            i <= languages@.len(),
            label_from(languages@, code@, 0) == label_from(languages@, code@, i as nat),
        decreases languages.len() - i,
    {
        if same_text(languages[i].code.as_str(), code) {
            return languages[i].label.clone();
        }
        i += 1;
    }
    code.to_string()
}

/// Whether text `a` comes before text `b` from position `from` on, character by character.
pub open spec fn less_from(a: Seq<char>, b: Seq<char>, from: nat) -> bool
    decreases b.len() - from,
{
    if from >= b.len() {
        false
    } else if from >= a.len() {
        true
    } else if a[from as int] != b[from as int] {
        (a[from as int] as int) < (b[from as int] as int)
    } else {
        less_from(a, b, from + 1)
    }
}

/// Whether text `a` comes before text `b` in the order of their characters.
pub open spec fn is_less(a: Seq<char>, b: Seq<char>) -> bool {
    less_from(a, b, 0)
}

proof fn lemma_less_is_transitive(a: Seq<char>, b: Seq<char>, c: Seq<char>, from: nat)
    requires
        less_from(a, b, from),
        less_from(b, c, from),
    ensures
        less_from(a, c, from),
    decreases b.len() - from,
{
    if from < a.len() && from < b.len() && from < c.len() && a[from as int] == b[from as int]
        && b[from as int] == c[from as int] {
        lemma_less_is_transitive(a, b, c, from + 1);
    }
}

proof fn lemma_less_is_total(a: Seq<char>, b: Seq<char>, from: nat)
    requires
        !less_from(a, b, from),
        !less_from(b, a, from),
        from <= a.len(),
        from <= b.len(),
    ensures
        a.len() == b.len(),
        forall|k: int| from <= k < a.len() ==> a[k] == b[k],
    decreases b.len() - from,
{
    if from < a.len() && from < b.len() {
        assert(a[from as int] == b[from as int]);
        lemma_less_is_total(a, b, from + 1);
    }
}

proof fn lemma_less_is_irreflexive(a: Seq<char>, from: nat)
    ensures
        !less_from(a, a, from),
    decreases a.len() - from,
{
    if from < a.len() {
        lemma_less_is_irreflexive(a, from + 1);
    }
}

fn is_lower(a: char, b: char) -> (lower: bool)
    ensures
        lower == ((a as int) < (b as int)),
{
    (a as u32) < (b as u32)
}

fn comes_before(a: &str, b: &str) -> (before: bool)
    ensures
        before == is_less(a@, b@),
{
    let x = text::chars_of(a);
    let y = text::chars_of(b);
    let mut i: usize = 0;
    while i < y.len()
        invariant
            i <= y@.len(),
            i <= x@.len(),
            x@ == a@,
            y@ == b@,
            is_less(a@, b@) == less_from(a@, b@, i as nat),
        decreases y.len() - i,
    {
        if i >= x.len() {
            return true;
        }
        if x[i] != y[i] {
            return is_lower(x[i], y[i]);
        }
        i += 1;
    }
    false
}

/// Whether language `i` stands above language `j` in the menu: by name, and by their order in
/// the list where the names are the same.
pub open spec fn stands_above(languages: Seq<Language>, i: int, j: int) -> bool {
    ||| is_less(languages[i].label@, languages[j].label@)
    ||| (languages[i].label@ == languages[j].label@ && i < j)
}

/// Whether the positions in `menu` are those of the first `n` languages but for the pinned
/// ones, in their order in the menu.
pub open spec fn is_menu_of(languages: Seq<Language>, n: int, menu: Seq<usize>) -> bool {
    &&& forall|k: int|
        0 <= k < menu.len() ==> (#[trigger] menu[k]) < n && !is_pinned(
            languages[menu[k] as int].code@,
        )
    &&& forall|i: int|
        0 <= i < n && !is_pinned((#[trigger] languages[i]).code@) ==> exists|k: int|
            0 <= k < menu.len() && menu[k] == i
    &&& forall|k: int, m: int|
        0 <= k < m < menu.len() ==> stands_above(
            languages,
            (#[trigger] menu[k]) as int,
            (#[trigger] menu[m]) as int,
        )
}

/// The languages below the pinned ones, as positions in the list: all others, by name.
pub fn language_menu(languages: &Vec<Language>) -> (menu: Vec<usize>)
    ensures
        is_menu_of(languages@, languages@.len() as int, menu@),
{
    let mut menu: Vec<usize> = Vec::new();
    let mut n: usize = 0;
    while n < languages.len()
        invariant
            n <= languages@.len(),
            is_menu_of(languages@, n as int, menu@),
        decreases languages.len() - n,
    {
        let code = languages[n].code.as_str();
        if !same_text(code, PINNED_FIRST) && !same_text(code, PINNED_SECOND) {
            insert_language(languages, &mut menu, n);
        }
        n += 1;
    }
    menu
}

fn insert_language(languages: &Vec<Language>, menu: &mut Vec<usize>, n: usize)
    requires
        n < languages@.len(),
        is_menu_of(languages@, n as int, old(menu)@),
        !is_pinned(languages@[n as int].code@),
    ensures
        is_menu_of(languages@, n + 1, final(menu)@),
{
    let ghost before = menu@;
    let mut at: usize = 0;
    while at < menu.len() && !comes_before(
        languages[n].label.as_str(),
        languages[menu[at]].label.as_str(),
    )
        invariant
            menu@ == before,
            n < languages@.len(),
            is_menu_of(languages@, n as int, before),
            at <= before.len(),
            forall|k: int|
                0 <= k < at ==> !is_less(
                    languages@[n as int].label@,
                    languages@[(#[trigger] before[k]) as int].label@,
                ),
        decreases menu.len() - at,
    {
        at += 1;
    }
    menu.insert(at, n);
    proof {
        let after = menu@;
        let label = languages@[n as int].label@;
        assert(after == before.insert(at as int, n));
        assert forall|k: int| 0 <= k < at implies stands_above(
            languages@,
            (#[trigger] before[k]) as int,
            n as int,
        ) by {
            let other = languages@[before[k] as int].label@;
            if !is_less(other, label) {
                lemma_less_is_total(other, label, 0);
                assert(other =~= label);
            }
        }
        assert forall|k: int| at <= k < before.len() implies is_less(
            label,
            languages@[(#[trigger] before[k]) as int].label@,
        ) by {
            if k > at {
                assert(stands_above(languages@, before[at as int] as int, before[k] as int));
                let first = languages@[before[at as int] as int].label@;
                let other = languages@[before[k] as int].label@;
                if is_less(first, other) {
                    lemma_less_is_transitive(label, first, other, 0);
                }
            }
        }
        assert forall|i: int|
            0 <= i < n + 1 && !is_pinned((#[trigger] languages@[i]).code@) implies exists|k: int|
            0 <= k < after.len() && after[k] == i by {
            if i == n {
                assert(after[at as int] == n);
            } else {
                let k = choose|k: int| 0 <= k < before.len() && before[k] == i;
                if k < at {
                    assert(after[k] == i);
                } else {
                    assert(after[k + 1] == i);
                }
            }
        }
    }
}

/// A line of the menu.
#[derive(Debug)]
pub enum MenuEntry {
    /// The language with this code, under this name.
    Item { code: String, label: String },
    Separator,
}

/// Whether a line of the menu is the item of a language.
pub open spec fn is_item(entry: MenuEntry, code: Seq<char>, label: Seq<char>) -> bool {
    entry matches MenuEntry::Item { code: c, label: l } && c@ == code && l@ == label
}

/// Whether lines are the whole menu of a list: the two pinned languages, a separator, and then
/// the languages at the positions in `rest`.
pub open spec fn is_whole_menu(
    languages: Seq<Language>,
    rest: Seq<usize>,
    entries: Seq<MenuEntry>,
) -> bool {
    &&& entries.len() == 3 + rest.len()
    &&& is_item(entries[0], PINNED_FIRST@, label_from(languages, PINNED_FIRST@, 0))
    &&& is_item(entries[1], PINNED_SECOND@, label_from(languages, PINNED_SECOND@, 0))
    &&& entries[2] == MenuEntry::Separator
    &&& forall|k: int|
        0 <= k < rest.len() ==> is_item(
            entries[k + 3],
            languages[(#[trigger] rest[k]) as int].code@,
            languages[rest[k] as int].label@,
        )
}

/// The whole menu: Czech and English on top, a separator, and then every other language by name.
pub fn build_language_menu(languages: &Vec<Language>) -> (entries: Vec<MenuEntry>)
    ensures
        exists|rest: Seq<usize>|
            is_menu_of(languages@, languages@.len() as int, rest) && #[trigger] is_whole_menu(
                languages@,
                rest,
                entries@,
            ),
{
    let rest = language_menu(languages);
    let mut entries: Vec<MenuEntry> = Vec::new();
    entries.push(
        MenuEntry::Item {
            code: PINNED_FIRST.to_string(),
            label: label_for(languages, PINNED_FIRST),
        },
    );
    entries.push(
        MenuEntry::Item {
            code: PINNED_SECOND.to_string(),
            label: label_for(languages, PINNED_SECOND),
        },
    );
    entries.push(MenuEntry::Separator);
    let mut k: usize = 0;
    while k < rest.len()
        invariant
            k <= rest@.len(),
            is_menu_of(languages@, languages@.len() as int, rest@),
            is_whole_menu(languages@, rest@.take(k as int), entries@),
        decreases rest.len() - k,
    {
        let language = &languages[rest[k]];
        let ghost before = entries@;
        entries.push(
            MenuEntry::Item { code: language.code.clone(), label: language.label.clone() },
        );
        proof {
            let now = rest@.take(k + 1);
            assert forall|m: int| 0 <= m < now.len() implies is_item(
                entries@[m + 3],
                languages@[(#[trigger] now[m]) as int].code@,
                languages@[now[m] as int].label@,
            ) by {
                if m < k {
                    assert(rest@.take(k as int)[m] == now[m]);
                    assert(entries@[m + 3] == before[m + 3]);
                }
            }
        }
        k += 1;
    }
    assert(rest@.take(k as int) =~= rest@);
    entries
}

/// The menu is settled by the list: two menus of the same languages are the same.
pub proof fn lemma_menu_is_unique(languages: Seq<Language>, a: Seq<usize>, b: Seq<usize>)
    requires
        is_menu_of(languages, languages.len() as int, a),
        is_menu_of(languages, languages.len() as int, b),
    ensures
        a == b,
{
    lemma_menus_agree(languages, a, b, 0);
    lemma_menus_agree(languages, b, a, 0);
    assert(a =~= b);
}

proof fn lemma_not_above_both_ways(languages: Seq<Language>, i: int, j: int)
    ensures
        !(stands_above(languages, i, j) && stands_above(languages, j, i)),
{
    let x = languages[i].label@;
    let y = languages[j].label@;
    lemma_less_is_irreflexive(x, 0);
    if is_less(x, y) && is_less(y, x) {
        lemma_less_is_transitive(x, y, x, 0);
    }
}

proof fn lemma_menus_agree(languages: Seq<Language>, a: Seq<usize>, b: Seq<usize>, from: nat)
    requires
        is_menu_of(languages, languages.len() as int, a),
        is_menu_of(languages, languages.len() as int, b),
        from <= a.len(),
        from <= b.len(),
        forall|k: int| 0 <= k < from ==> a[k] == b[k],
    ensures
        a.len() <= b.len(),
        forall|k: int| 0 <= k < a.len() ==> a[k] == b[k],
    decreases a.len() - from,
{
    if from < a.len() {
        let n = languages.len() as int;
        let i = a[from as int] as int;
        assert(!is_pinned(languages[i].code@));
        let m = choose|m: int| 0 <= m < b.len() && b[m] == i;
        // An entry that `b` holds before `from` stands before `from` in `a` too.
        if m < from {
            assert(stands_above(languages, a[m] as int, a[from as int] as int));
            lemma_not_above_both_ways(languages, i, i);
        }
        let j = b[from as int] as int;
        assert(!is_pinned(languages[j].code@));
        let k = choose|k: int| 0 <= k < a.len() && a[k] == j;
        if k < from {
            assert(stands_above(languages, b[k] as int, b[from as int] as int));
            lemma_not_above_both_ways(languages, j, j);
        }
        if m > from && k > from {
            assert(stands_above(languages, b[from as int] as int, b[m] as int));
            assert(stands_above(languages, a[from as int] as int, a[k] as int));
            lemma_not_above_both_ways(languages, i, j);
        }
        assert(a[from as int] == b[from as int]);
        lemma_menus_agree(languages, a, b, from + 1);
    }
}

proof fn lemma_label_is_found(languages: Seq<Language>, code: Seq<char>, from: nat, k: int)
    requires
        from <= k < languages.len(),
        languages[k].code@ == code,
        forall|j: int| from <= j < k ==> (#[trigger] languages[j]).code@ != code,
    ensures
        label_from(languages, code, from) == languages[k].label@,
    decreases k - from,
{
    if from < k {
        lemma_label_is_found(languages, code, from + 1, k);
    }
}

proof fn lemma_label_is_missing(languages: Seq<Language>, code: Seq<char>, from: nat)
    requires
        forall|j: int| from <= j < languages.len() ==> (#[trigger] languages[j]).code@ != code,
    ensures
        label_from(languages, code, from) == code,
    decreases languages.len() - from,
{
    if from < languages.len() {
        lemma_label_is_missing(languages, code, from + 1);
    }
}

/// A code is shown under the name of the first language that has it, wherever that stands in
/// the list; only a code that no language has is shown as it is.
pub proof fn lemma_codes_are_shown_by_name(languages: Seq<Language>, code: Seq<char>)
    ensures
        forall|k: int|
            0 <= k < languages.len() && (#[trigger] languages[k]).code@ == code && (forall|j: int|
                0 <= j < k ==> (#[trigger] languages[j]).code@ != code) ==> label_from(
                languages,
                code,
                0,
            ) == languages[k].label@,
        (forall|j: int| 0 <= j < languages.len() ==> (#[trigger] languages[j]).code@ != code)
            ==> label_from(languages, code, 0) == code,
{
    assert forall|k: int|
        0 <= k < languages.len() && (#[trigger] languages[k]).code@ == code && (forall|j: int|
            0 <= j < k ==> (#[trigger] languages[j]).code@ != code) implies label_from(
        languages,
        code,
        0,
    ) == languages[k].label@ by {
        lemma_label_is_found(languages, code, 0, k);
    }
    if forall|j: int| 0 <= j < languages.len() ==> (#[trigger] languages[j]).code@ != code {
        lemma_label_is_missing(languages, code, 0);
    }
}

proof fn lemma_less_at_difference(a: Seq<char>, b: Seq<char>, from: nat, at: nat)
    requires
        from <= at <= a.len(),
        at <= b.len(),
        forall|i: int| from <= i < at ==> a[i] == b[i],
    ensures
        less_from(a, b, from) == less_from(a, b, at),
    decreases at - from,
{
    if from < at {
        lemma_less_at_difference(a, b, from + 1, at);
    }
}

/// The order of names is that of a dictionary: what two names start with in common does not
/// count, the first characters in which they differ decide, and a name comes before any longer
/// one that starts with it. Of two different names one comes first, and not the other.
pub proof fn lemma_names_are_in_dictionary_order(
    common: Seq<char>,
    x: char,
    y: char,
    a: Seq<char>,
    b: Seq<char>,
)
    ensures
        x != y ==> (is_less(common + seq![x] + a, common + seq![y] + b) <==> (x as int) < (
        y as int)),
        is_less(common, common + seq![y] + b),
        !is_less(common + seq![y] + b, common),
        a != b ==> is_less(a, b) == !is_less(b, a),
        !is_less(a, a),
{
    let n = common.len();
    let p = common + seq![x] + a;
    let q = common + seq![y] + b;
    lemma_less_at_difference(p, q, 0, n);
    assert(p[n as int] == x && q[n as int] == y);
    lemma_less_at_difference(common, q, 0, n);
    lemma_less_at_difference(q, common, 0, n);
    lemma_less_is_irreflexive(a, 0);
    if a != b {
        if !is_less(a, b) && !is_less(b, a) {
            lemma_less_is_total(a, b, 0);
            assert(a =~= b);
        }
        if is_less(a, b) && is_less(b, a) {
            lemma_less_is_transitive(a, b, a, 0);
        }
    }
}

/// A language that is not pinned is listed once below the pinned ones, and pinned ones are not
/// listed there: so every language of the list can be chosen, in one place.
pub proof fn lemma_every_language_is_listed_once(
    languages: Seq<Language>,
    menu: Seq<usize>,
    i: int,
)
    requires
        is_menu_of(languages, languages.len() as int, menu),
        0 <= i < languages.len(),
    ensures
        (exists|k: int| 0 <= k < menu.len() && menu[k] == i) <==> languages[i].code@ != "cs"@
            && languages[i].code@ != "en"@,
        forall|k: int, m: int|
            0 <= k < m < menu.len() ==> #[trigger] menu[k] != #[trigger] menu[m] && !is_less(
                languages[menu[m] as int].label@,
                languages[menu[k] as int].label@,
            ),
{
    assert forall|k: int, m: int| 0 <= k < m < menu.len() implies #[trigger] menu[k]
        != #[trigger] menu[m] && !is_less(
        languages[menu[m] as int].label@,
        languages[menu[k] as int].label@,
    ) by {
        assert(stands_above(languages, menu[k] as int, menu[m] as int));
        lemma_not_above_both_ways(languages, menu[k] as int, menu[m] as int);
        lemma_not_above_both_ways(languages, menu[k] as int, menu[k] as int);
    }
    if exists|k: int| 0 <= k < menu.len() && menu[k] == i {
        let k = choose|k: int| 0 <= k < menu.len() && menu[k] == i;
        assert(!is_pinned(languages[menu[k] as int].code@));
    }
}

/// The menu offers every language of the list by its name: Czech and English on top, the only
/// separator below them, and each other language below that, under its own name.
pub proof fn lemma_menu_offers_every_language(
    languages: Seq<Language>,
    rest: Seq<usize>,
    entries: Seq<MenuEntry>,
    i: int,
)
    requires
        is_menu_of(languages, languages.len() as int, rest),
        is_whole_menu(languages, rest, entries),
        0 <= i < languages.len(),
    ensures
        entries.len() >= 3,
        entries[0] matches MenuEntry::Item { code, .. } && code@ == "cs"@,
        entries[1] matches MenuEntry::Item { code, .. } && code@ == "en"@,
        forall|k: int| 0 <= k < entries.len() ==> ((#[trigger] entries[k]) is Separator <==> k == 2),
        languages[i].code@ == "cs"@ ==> exists|j: int|
            0 <= j <= i && (#[trigger] languages[j]).code@ == "cs"@ && is_item(
                entries[0],
                "cs"@,
                languages[j].label@,
            ),
        languages[i].code@ == "en"@ ==> exists|j: int|
            0 <= j <= i && (#[trigger] languages[j]).code@ == "en"@ && is_item(
                entries[1],
                "en"@,
                languages[j].label@,
            ),
        languages[i].code@ != "cs"@ && languages[i].code@ != "en"@ ==> exists|k: int|
            2 < k < entries.len() && is_item(
                #[trigger] entries[k],
                languages[i].code@,
                languages[i].label@,
            ),
{
    assert forall|k: int| 0 <= k < entries.len() implies ((#[trigger] entries[k]) is Separator
        <==> k == 2) by {
        if k > 2 {
            assert(is_item(
                entries[(k - 3) + 3],
                languages[rest[k - 3] as int].code@,
                languages[rest[k - 3] as int].label@,
            ));
        }
    }
    if languages[i].code@ == "cs"@ {
        let j = lemma_first_with_code(languages, "cs"@, i, 0);
        lemma_label_is_found(languages, "cs"@, 0, j);
        assert(is_item(entries[0], "cs"@, languages[j].label@));
    } else if languages[i].code@ == "en"@ {
        let j = lemma_first_with_code(languages, "en"@, i, 0);
        lemma_label_is_found(languages, "en"@, 0, j);
        assert(is_item(entries[1], "en"@, languages[j].label@));
    } else {
        assert(!is_pinned(languages[i].code@));
        let k = choose|k: int| 0 <= k < rest.len() && rest[k] == i;
        assert(is_item(
            entries[k + 3],
            languages[rest[k] as int].code@,
            languages[rest[k] as int].label@,
        ));
    }
}

proof fn lemma_first_with_code(languages: Seq<Language>, code: Seq<char>, i: int, from: int) -> (j:
    int)
    requires
        0 <= from <= i < languages.len(),
        languages[i].code@ == code,
    ensures
        from <= j <= i,
        languages[j].code@ == code,
        forall|k: int| from <= k < j ==> (#[trigger] languages[k]).code@ != code,
    decreases i - from,
{
    if languages[from].code@ == code {
        from
    } else {
        lemma_first_with_code(languages, code, i, from + 1)
    }
}

} // verus!
