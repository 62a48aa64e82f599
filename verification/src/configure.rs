//! Bringing the assistant's permissions in line with what is recommended.

use serde_json::Value;
use vstd::prelude::*;
use vstd::string::StringExecFns;

use crate::config::RecommendedPermissions;
use crate::json::{self, JsonView};
use crate::num::{self, digits_text};
use crate::paths::{self, hidden_name, join};
use crate::text::{self, is_listed, str_eq, to_lowercase, trim};
use crate::textset::{self, TextSet};

verus! {

/// The texts among JSON values, in order.
pub open spec fn texts_in(s: Seq<JsonView>) -> Seq<Seq<char>>
    decreases s.len(),
{
    if s.len() == 0 {
        Seq::empty()
    } else {
        match json::as_text(s.last()) {
            Some(t) => texts_in(s.drop_last()).push(t),
            None => texts_in(s.drop_last()),
        }
    }
}

/// The texts of an array, put in order; none of anything else.
pub open spec fn text_set_of(v: Option<JsonView>) -> Seq<Seq<char>> {
    match v {
        Some(JsonView::Array(s)) => textset::ordered(texts_in(s)),
        _ => Seq::empty(),
    }
}

/// The permissions of a category in the assistant's settings.
pub open spec fn permissions_of(settings: JsonView, category: Seq<char>) -> Seq<Seq<char>> {
    match json::member(settings, "permissions"@) {
        Some(p) => text_set_of(json::member(p, category)),
        None => Seq::empty(),
    }
}

/// The texts of an array, put in order; none of anything else.
fn text_set(v: Option<&Value>) -> (r: TextSet)
    ensures
        r@ == text_set_of(
            match v {
                Some(x) => Some(json::json_view(*x)),
                None => None,
            },
        ),
        textset::ascending(r@),
{
    let elements = match v {
        Some(x) => json::as_array(x),
        None => None,
    };
    match elements {
        Some(list) => {
            let ghost all = json::json_views(list@);
            let mut found: Vec<String> = Vec::new();
            let mut i: usize = 0;
            proof {
                assert(all.take(0) =~= Seq::empty());
                assert(text::texts(found@) =~= Seq::empty());
            }
            while i < list.len()
                invariant
                    i <= list.len(),
                    all == json::json_views(list@),
                    text::texts(found@) == texts_in(all.take(i as int)),
                decreases list.len() - i,
            {
                let ghost before = found@;
                proof {
                    assert(all.take(i + 1).drop_last() =~= all.take(i as int));
                    assert(all.take(i + 1).last() == json::json_view(list@[i as int]));
                }
                if let Some(t) = json::as_str(&list[i]) {
                    found.push(t.to_owned());
                    proof {
                        assert(text::texts(found@) =~= text::texts(before).push(t@));
                    }
                }
                i += 1;
            }
            proof {
                assert(all.take(all.len() as int) =~= all);
            }
            TextSet::of(&found)
        },
        None => TextSet::new(),
    }
}

/// The permissions of a category in the assistant's settings, in order.
pub fn get_permission_set(settings: &Value, key: &str) -> (r: TextSet)
    ensures
        r@ == permissions_of(json::json_view(*settings), key@),
        textset::ascending(r@),
{
    match json::get(settings, "permissions") {
        Some(p) => text_set(json::get(p, key)),
        None => TextSet::new(),
    }
}

/// The set of some texts.
pub fn set_from_slice(items: &[&str]) -> (r: TextSet)
    ensures
        r@ == textset::ordered(json::str_views(items@)),
        textset::ascending(r@),
{
    let ghost all = json::str_views(items@);
    let mut r = TextSet::new();
    let mut i: usize = 0;
    proof {
        assert(all.take(0) =~= Seq::empty());
    }
    while i < items.len()
        invariant
            i <= items.len(),
            all == json::str_views(items@),
            r@ == textset::ordered(all.take(i as int)),
            textset::ascending(r@),
        decreases items.len() - i,
    {
        proof {
            assert(all.take(i + 1).drop_last() =~= all.take(i as int));
            assert(all.take(i + 1).last() == items@[i as int]@);
        }
        r.insert(items[i]);
        i += 1;
    }
    proof {
        assert(all.take(all.len() as int) =~= all);
    }
    r
}

/// The texts of one list that are not in another, in order.
pub open spec fn difference(a: Seq<Seq<char>>, b: Seq<Seq<char>>) -> Seq<Seq<char>> {
    a.filter(|t: Seq<char>| !b.contains(t))
}

/// What is recommended and not there, in order.
pub fn missing_entries(current: &TextSet, recommended: &TextSet) -> (r: TextSet)
    requires
        textset::ascending(recommended@),
    ensures
        r@ == difference(recommended@, current@),
        textset::ascending(r@),
{
    recommended.without(current)
}

/// What is there and not recommended, in order.
pub fn extra_entries(current: &TextSet, recommended: &TextSet) -> (r: TextSet)
    requires
        textset::ascending(current@),
    ensures
        r@ == difference(current@, recommended@),
        textset::ascending(r@),
{
    current.without(recommended)
}

/// What is missing of what is recommended, in a category.
#[derive(Debug)]
pub struct PermissionDiff {
    pub category: String,
    pub missing: TextSet,
}

/// What is missing in a category, as a mathematical value.
#[verifier::ext_equal]
pub struct DiffView {
    pub category: Seq<char>,
    pub missing: Seq<Seq<char>>,
}

impl View for PermissionDiff {
    type V = DiffView;

    open spec fn view(&self) -> DiffView {
        DiffView { category: self.category@, missing: self.missing@ }
    }
}

/// What is missing in categories, as mathematical values.
pub open spec fn diff_views(v: Seq<PermissionDiff>) -> Seq<DiffView> {
    v.map_values(|d: PermissionDiff| d@)
}

impl PermissionDiff {
    /// Whether nothing is missing.
    pub fn is_aligned(&self) -> (r: bool)
        ensures
            r == (self@.missing.len() == 0),
    {
        self.missing.is_empty()
    }
}

/// What is missing in a category, given what is recommended.
pub open spec fn diff_of(
    settings: JsonView,
    category: Seq<char>,
    recommended: Seq<Seq<char>>,
) -> DiffView {
    DiffView {
        category,
        missing: difference(
            textset::ordered(recommended),
            permissions_of(settings, category),
        ),
    }
}

/// What is missing in each category.
pub open spec fn diffs_of(
    settings: JsonView,
    allow: Seq<Seq<char>>,
    deny: Seq<Seq<char>>,
    ask: Seq<Seq<char>>,
) -> Seq<DiffView> {
    seq![
        diff_of(settings, "allow"@, allow),
        diff_of(settings, "deny"@, deny),
        diff_of(settings, "ask"@, ask),
    ]
}

/// What is missing in a category, given what is recommended.
fn category_diff(settings: &Value, category: &str, recommended: &Vec<String>) -> (r: PermissionDiff)
    ensures
        r@ == diff_of(json::json_view(*settings), category@, text::texts(recommended@)),
        textset::ascending(r.missing@),
{
    let current = get_permission_set(settings, category);
    let wanted = TextSet::of(recommended);
    PermissionDiff { category: category.to_owned(), missing: missing_entries(&current, &wanted) }
}

/// What is missing in each category: what may be done, what may not, and what must be asked for.
pub fn compute_diffs(settings: &Value, recommended: &RecommendedPermissions) -> (r: Vec<
    PermissionDiff,
>)
    ensures
        diff_views(r@) == diffs_of(
            json::json_view(*settings),
            text::texts(recommended.allow@),
            text::texts(recommended.deny@),
            text::texts(recommended.ask@),
        ),
        forall|i: int| 0 <= i < r@.len() ==> textset::ascending((#[trigger] r@[i]).missing@),
{
    let mut r: Vec<PermissionDiff> = Vec::new();
    r.push(category_diff(settings, "allow", &recommended.allow));
    r.push(category_diff(settings, "deny", &recommended.deny));
    r.push(category_diff(settings, "ask", &recommended.ask));
    proof {
        assert(diff_views(r@) =~= diffs_of(
            json::json_view(*settings),
            text::texts(recommended.allow@),
            text::texts(recommended.deny@),
            text::texts(recommended.ask@),
        ));
    }
    r
}

/// Why permissions cannot be added.
#[derive(Debug, Clone, Copy, PartialEq, Eq, Structural)]
pub enum PermissionError {
    SettingsNotObject,
    PermissionsNotObject,
}

impl PermissionError {
    /// The error in words.
    pub open spec fn text(self) -> Seq<char> {
        match self {
            PermissionError::SettingsNotObject => "settings is not a JSON object"@,
            PermissionError::PermissionsNotObject => "permissions is not a JSON object"@,
        }
    }

    /// The error in words.
    pub fn message(&self) -> (r: String)
        ensures
            r@ == self.text(),
    {
        match self {
            PermissionError::SettingsNotObject => "settings is not a JSON object".to_owned(),
            PermissionError::PermissionsNotObject => "permissions is not a JSON object".to_owned(),
        }
    }
}

/// A list with those of others behind it that it does not have.
pub open spec fn merged(list: Seq<Seq<char>>, more: Seq<Seq<char>>) -> Seq<Seq<char>>
    decreases more.len(),
{
    if more.len() == 0 {
        list
    } else {
        let before = merged(list, more.drop_last());
        if before.contains(more.last()) {
            before
        } else {
            before.push(more.last())
        }
    }
}

/// Permissions with some added to a category. What was there is put in order, and the new ones
/// follow. Nothing is done where none are added.
pub open spec fn with_added(
    permissions: Map<Seq<char>, JsonView>,
    category: Seq<char>,
    additions: Seq<Seq<char>>,
) -> Map<Seq<char>, JsonView> {
    if additions.len() == 0 {
        permissions
    } else {
        permissions.insert(
            category,
            json::texts_json(
                merged(
                    text_set_of(
                        if permissions.contains_key(category) {
                            Some(permissions[category])
                        } else {
                            None
                        },
                    ),
                    additions,
                ),
            ),
        )
    }
}

/// Permissions with some added to categories, in order.
pub open spec fn with_all_added(
    permissions: Map<Seq<char>, JsonView>,
    additions: Seq<DiffView>,
) -> Map<Seq<char>, JsonView>
    decreases additions.len(),
{
    if additions.len() == 0 {
        permissions
    } else {
        with_added(
            with_all_added(permissions, additions.drop_last()),
            additions.last().category,
            additions.last().missing,
        )
    }
}

/// The permissions in the assistant's settings: none where there are none yet.
pub open spec fn permission_map(settings: JsonView) -> Option<Map<Seq<char>, JsonView>> {
    match json::member(settings, "permissions"@) {
        Some(JsonView::Object(m)) => Some(m),
        Some(_) => None,
        None => Some(Map::empty()),
    }
}

/// Settings with permissions added to categories, or why they cannot be.
pub open spec fn permissions_added(settings: JsonView, additions: Seq<DiffView>) -> Result<
    JsonView,
    PermissionError,
> {
    if !(settings is Object) {
        Err(PermissionError::SettingsNotObject)
    } else {
        match permission_map(settings) {
            Some(m) => Ok(
                JsonView::Object(
                    settings->Object_0.insert(
                        "permissions"@,
                        JsonView::Object(with_all_added(m, additions)),
                    ),
                ),
            ),
            None => Err(PermissionError::PermissionsNotObject),
        }
    }
}

/// What is to be added, as mathematical values.
pub open spec fn addition_views(s: Seq<(&str, &TextSet)>) -> Seq<DiffView> {
    s.map_values(|a: (&str, &TextSet)| DiffView { category: a.0@, missing: a.1@ })
}

/// A list of texts as a JSON value.
fn texts_value(list: &Vec<String>) -> (r: Value)
    ensures
        json::json_view(r) == json::texts_json(text::texts(list@)),
{
    let mut elements: Vec<Value> = Vec::new();
    let mut i: usize = 0;
    while i < list.len()
        invariant
            i <= list.len(),
            elements.len() == i,
            forall|k: int|
                0 <= k < i ==> json::json_view(#[trigger] elements@[k]) == JsonView::Text(
                    list@[k]@,
                ),
        decreases list.len() - i,
    {
        elements.push(json::text(list[i].as_str()));
        i += 1;
    }
    proof {
        assert(json::json_views(elements@) =~= json::texts_json(text::texts(list@))->Array_0);
    }
    json::array(elements)
}

/// A list with those of a set behind it that it does not have.
fn merge(list: &TextSet, more: &TextSet) -> (r: Vec<String>)
    ensures
        text::texts(r@) == merged(list@, more@),
{
    let mut r: Vec<String> = Vec::new();
    let mut i: usize = 0;
    let n: usize = list.len();
    while i < n
        invariant
            i <= n == list@.len(),
            r.len() == i,
            forall|k: int| 0 <= k < i ==> (#[trigger] r@[k])@ == list@[k],
        decreases n - i,
    {
        r.push(list.get(i).to_owned());
        i += 1;
    }
    let m: usize = more.len();
    let mut k: usize = 0;
    proof {
        assert(text::texts(r@) =~= list@);
        assert(more@.take(0) =~= Seq::empty());
    }
    while k < m
        invariant
            k <= m == more@.len(),
            text::texts(r@) == merged(list@, more@.take(k as int)),
        decreases m - k,
    {
        let ghost before = r@;
        let t = more.get(k);
        proof {
            assert(more@.take(k + 1).drop_last() =~= more@.take(k as int));
            assert(more@.take(k + 1).last() == t@);
        }
        if !is_listed(&r, t) {
            r.push(t.to_owned());
            proof {
                assert(text::texts(r@) =~= text::texts(before).push(t@));
            }
        }
        k += 1;
    }
    proof {
        assert(more@.take(more@.len() as int) =~= more@);
    }
    r
}

/// Adds permissions to categories of the assistant's settings. Refused where the settings, or the
/// permissions in them, are no object; the settings then stay as they are.
pub fn apply_permission_changes(settings: &mut Value, to_add: &[(&str, &TextSet)]) -> (r: Result<
    (),
    PermissionError,
>)
    ensures
        match permissions_added(json::json_view(*old(settings)), addition_views(to_add@)) {
            Ok(v) => r is Ok && json::json_view(*final(settings)) == v,
            Err(e) => r == Err::<(), PermissionError>(e) && *final(settings) == *old(settings),
        },
{
    if !json::is_object(settings) {
        return Err(PermissionError::SettingsNotObject);
    }
    let mut permissions = match json::get(settings, "permissions") {
        Some(p) => json::duplicate(p),
        None => json::empty_object(),
    };
    if !json::is_object(&permissions) {
        return Err(PermissionError::PermissionsNotObject);
    }
    let ghost m = json::json_view(permissions)->Object_0;
    let ghost all = addition_views(to_add@);
    let mut i: usize = 0;
    proof {
        assert(all.take(0) =~= Seq::empty());
    }
    while i < to_add.len()
        invariant
            i <= to_add.len(),
            all == addition_views(to_add@),
            json::json_view(permissions) == JsonView::Object(
                with_all_added(m, all.take(i as int)),
            ),
        decreases to_add.len() - i,
    {
        let (category, additions) = to_add[i];
        proof {
            assert(all.take(i + 1).drop_last() =~= all.take(i as int));
            assert(all.take(i + 1).last() == all[i as int]);
        }
        if !additions.is_empty() {
            let existing = text_set(json::get(&permissions, category));
            let list = merge(&existing, additions);
            json::insert(&mut permissions, category, texts_value(&list));
        }
        i += 1;
    }
    proof {
        assert(all.take(all.len() as int) =~= all);
    }
    json::insert(settings, "permissions", permissions);
    Ok(())
}

/// The texts of an array of texts are those texts.
proof fn lemma_texts_in(s: Seq<Seq<char>>)
    ensures
        texts_in(json::texts_json(s)->Array_0) == s,
    decreases s.len(),
{
    let a = json::texts_json(s)->Array_0;
    if s.len() > 0 {
        lemma_texts_in(s.drop_last());
        assert(a.drop_last() =~= json::texts_json(s.drop_last())->Array_0);
        assert(s.drop_last().push(s.last()) =~= s);
    } else {
        assert(texts_in(a) =~= s);
    }
}

/// What is in a list with others behind it.
proof fn lemma_merged(list: Seq<Seq<char>>, more: Seq<Seq<char>>, t: Seq<char>)
    ensures
        merged(list, more).contains(t) == (list.contains(t) || more.contains(t)),
    decreases more.len(),
{
    if more.len() > 0 {
        let rest = more.drop_last();
        lemma_merged(list, rest, t);
        lemma_merged(list, rest, more.last());
        let before = merged(list, rest);
        let r = merged(list, more);
        if more.contains(t) {
            let k = choose|k: int| 0 <= k < more.len() && more[k] == t;
            if k < rest.len() {
                assert(rest[k] == t);
            }
        }
        if rest.contains(t) {
            let k = choose|k: int| 0 <= k < rest.len() && rest[k] == t;
            assert(more[k] == t);
        }
        if !before.contains(more.last()) {
            if before.contains(t) {
                let k = choose|k: int| 0 <= k < before.len() && before[k] == t;
                assert(r[k] == t);
            }
            if t == more.last() {
                assert(r[r.len() - 1] == t);
            }
            if r.contains(t) {
                let k = choose|k: int| 0 <= k < r.len() && r[k] == t;
                if k < before.len() {
                    assert(before[k] == t);
                }
            }
        }
        if t == more.last() {
            assert(more[more.len() - 1] == t);
        }
    }
}

/// A category after permissions were added to it has what it had and what was added, and no other
/// permission; other categories stay.
pub proof fn adding_adds_exactly(
    permissions: Map<Seq<char>, JsonView>,
    category: Seq<char>,
    additions: Seq<Seq<char>>,
    other: Seq<char>,
    t: Seq<char>,
)
    ensures
        ({
            let after = JsonView::Object(with_added(permissions, category, additions));
            let before = JsonView::Object(permissions);
            &&& text_set_of(json::member(after, category)).contains(t) == (text_set_of(
                json::member(before, category),
            ).contains(t) || additions.contains(t))
            &&& other != category ==> json::member(after, other) == json::member(before, other)
        }),
{
    let existing = text_set_of(
        if permissions.contains_key(category) {
            Some(permissions[category])
        } else {
            None
        },
    );
    if additions.len() > 0 {
        let list = merged(existing, additions);
        lemma_merged(existing, additions, t);
        lemma_texts_in(list);
        textset::ordering_keeps_texts(list);
    }
}

/// The categories have different names.
proof fn lemma_categories()
    ensures
        "allow"@ != "deny"@,
        "allow"@ != "ask"@,
        "deny"@ != "ask"@,
{
    reveal_strlit("allow");
    reveal_strlit("deny");
    reveal_strlit("ask");
    assert("allow"@[1] == 'l');
    assert("ask"@[1] == 's');
}

/// Where what is missing was added, nothing is missing any more.
proof fn lemma_nothing_missing(
    settings: JsonView,
    after: JsonView,
    category: Seq<char>,
    recommended: Seq<Seq<char>>,
)
    requires
        forall|t: Seq<char>|
            #[trigger] permissions_of(after, category).contains(t) == (permissions_of(
                settings,
                category,
            ).contains(t) || diff_of(settings, category, recommended).missing.contains(t)),
    ensures
        diff_of(after, category, recommended).missing.len() == 0,
{
    let wanted = textset::ordered(recommended);
    let had = permissions_of(settings, category);
    let now = permissions_of(after, category);
    let p = |t: Seq<char>| !had.contains(t);
    let q = |t: Seq<char>| !now.contains(t);
    textset::ordering_keeps_texts(recommended);
    textset::lemma_filter_ascending(wanted, p);
    textset::lemma_filter_ascending(wanted, q);
    let missing = wanted.filter(q);
    if missing.len() > 0 {
        let t = missing[0];
        assert(missing.contains(t));
        assert(wanted.contains(t) && q(t));
        assert(wanted.filter(p).contains(t) == (wanted.contains(t) && p(t)));
        assert(permissions_of(after, category).contains(t));
    }
}

/// Adding all that is missing leaves nothing missing.
pub proof fn applying_all_aligns(
    settings: JsonView,
    allow: Seq<Seq<char>>,
    deny: Seq<Seq<char>>,
    ask: Seq<Seq<char>>,
)
    requires
        permissions_added(settings, diffs_of(settings, allow, deny, ask)) is Ok,
    ensures
        ({
            let after = permissions_added(settings, diffs_of(settings, allow, deny, ask))->Ok_0;
            let left = diffs_of(after, allow, deny, ask);
            left[0].missing.len() == 0 && left[1].missing.len() == 0 && left[2].missing.len() == 0
        }),
{
    let d = diffs_of(settings, allow, deny, ask);
    let after = permissions_added(settings, d)->Ok_0;
    let m = permission_map(settings)->Some_0;
    lemma_categories();
    let m1 = with_added(m, "allow"@, d[0].missing);
    let m2 = with_added(m1, "deny"@, d[1].missing);
    let m3 = with_added(m2, "ask"@, d[2].missing);
    assert(with_all_added(m, d) == m3) by {
        reveal_with_fuel(with_all_added, 4);
        assert(d.drop_last().drop_last().drop_last() =~= Seq::empty());
        assert(d.drop_last().drop_last().last() == d[0]);
        assert(d.drop_last().last() == d[1]);
    }
    assert(json::member(after, "permissions"@) == Some(JsonView::Object(m3)));
    let o = JsonView::Object(m);
    assert forall|t: Seq<char>| #[trigger]
        permissions_of(after, "allow"@).contains(t) == (permissions_of(
            settings,
            "allow"@,
        ).contains(t) || d[0].missing.contains(t)) by {
        adding_adds_exactly(m, "allow"@, d[0].missing, "deny"@, t);
        adding_adds_exactly(m1, "deny"@, d[1].missing, "allow"@, t);
        adding_adds_exactly(m2, "ask"@, d[2].missing, "allow"@, t);
    }
    assert forall|t: Seq<char>| #[trigger]
        permissions_of(after, "deny"@).contains(t) == (permissions_of(
            settings,
            "deny"@,
        ).contains(t) || d[1].missing.contains(t)) by {
        adding_adds_exactly(m, "allow"@, d[0].missing, "deny"@, t);
        adding_adds_exactly(m1, "deny"@, d[1].missing, "allow"@, t);
        adding_adds_exactly(m2, "ask"@, d[2].missing, "deny"@, t);
    }
    assert forall|t: Seq<char>| #[trigger]
        permissions_of(after, "ask"@).contains(t) == (permissions_of(
            settings,
            "ask"@,
        ).contains(t) || d[2].missing.contains(t)) by {
        adding_adds_exactly(m, "allow"@, d[0].missing, "ask"@, t);
        adding_adds_exactly(m1, "deny"@, d[1].missing, "ask"@, t);
        adding_adds_exactly(m2, "ask"@, d[2].missing, "deny"@, t);
    }
    lemma_nothing_missing(settings, after, "allow"@, allow);
    lemma_nothing_missing(settings, after, "deny"@, deny);
    lemma_nothing_missing(settings, after, "ask"@, ask);
}

/// Adding permissions leaves every other setting as it was.
pub proof fn adding_keeps_other_settings(
    settings: JsonView,
    additions: Seq<DiffView>,
    key: Seq<char>,
)
    requires
        permissions_added(settings, additions) is Ok,
        key != "permissions"@,
    ensures
        json::member(permissions_added(settings, additions)->Ok_0, key) == json::member(
            settings,
            key,
        ),
{
}

/// A text that a terminal shows in a style, and nothing behind it.
pub open spec fn styled(on: Seq<char>, s: Seq<char>) -> Seq<char> {
    on + s + "\x1b[0m"@
}

/// A text that a terminal shows in a style, and nothing behind it.
fn style(on: &str, s: &str) -> (r: String)
    ensures
        r@ == styled(on@, s@),
{
    let mut r = on.to_owned();
    r.append(s);
    r.append("\x1b[0m");
    r
}

/// A text in bold.
pub fn bold(s: &str) -> (r: String)
    ensures
        r@ == styled("\x1b[1m"@, s@),
{
    style("\x1b[1m", s)
}

/// A text in green.
pub fn green(s: &str) -> (r: String)
    ensures
        r@ == styled("\x1b[32m"@, s@),
{
    style("\x1b[32m", s)
}

/// A text in yellow.
pub fn yellow(s: &str) -> (r: String)
    ensures
        r@ == styled("\x1b[33m"@, s@),
{
    style("\x1b[33m", s)
}

/// A text in red.
pub fn red(s: &str) -> (r: String)
    ensures
        r@ == styled("\x1b[31m"@, s@),
{
    style("\x1b[31m", s)
}

/// A text in dim letters.
pub fn dim(s: &str) -> (r: String)
    ensures
        r@ == styled("\x1b[2m"@, s@),
{
    style("\x1b[2m", s)
}

/// What was found of a program that is needed.
#[derive(Debug)]
pub struct CheckResult {
    pub name: String,
    pub installed: bool,
    pub detail: String,
}

/// What was found of a program, as a mathematical value.
#[verifier::ext_equal]
pub struct CheckView {
    pub name: Seq<char>,
    pub installed: bool,
    pub detail: Seq<char>,
}

impl View for CheckResult {
    type V = CheckView;

    open spec fn view(&self) -> CheckView {
        CheckView { name: self.name@, installed: self.installed, detail: self.detail@ }
    }
}

/// Where an assistant can be had.
pub open spec fn missing_assistant(assistant: Seq<char>) -> Seq<char> {
    "not found — install from https://docs.anthropic.com/en/docs/"@ + assistant + "-code"@
}

/// What was found of an assistant, given whether it is there and what it says its version is.
pub fn check_claude(assistant: &str, installed: bool, version: Option<&str>) -> (r: CheckResult)
    ensures
        r@ == (CheckView {
            name: assistant@,
            installed,
            detail: if !installed {
                missing_assistant(assistant@)
            } else {
                match text::opt_str(version) {
                    Some(v) => if text::trimmed(v).len() == 0 {
                        "installed"@
                    } else {
                        "installed ("@ + text::trimmed(v) + ")"@
                    },
                    None => "installed"@,
                }
            },
        }),
{
    let detail = if installed {
        match version {
            Some(v) => {
                let t = trim(v);
                if t.as_str().is_empty() {
                    "installed".to_owned()
                } else {
                    let mut d = "installed (".to_owned();
                    d.append(t.as_str());
                    d.append(")");
                    d
                }
            },
            None => "installed".to_owned(),
        }
    } else {
        let mut d = "not found — install from https://docs.anthropic.com/en/docs/".to_owned();
        d.append(assistant);
        d.append("-code");
        d
    };
    CheckResult { name: assistant.to_owned(), installed, detail }
}

/// What was found of the tool for pull requests, given whether it is there and logged in.
pub fn check_gh(installed: bool, auth_ok: bool) -> (r: CheckResult)
    ensures
        r@ == (CheckView {
            name: "gh"@,
            installed,
            detail: if !installed {
                "not found — install from https://cli.github.com"@
            } else if auth_ok {
                "installed and authenticated"@
            } else {
                "installed but NOT authenticated — run `gh auth login`"@
            },
        }),
{
    let detail = if !installed {
        "not found — install from https://cli.github.com".to_owned()
    } else if auth_ok {
        "installed and authenticated".to_owned()
    } else {
        "installed but NOT authenticated — run `gh auth login`".to_owned()
    };
    CheckResult { name: "gh".to_owned(), installed, detail }
}

/// What was found of git, given whether it is there.
pub fn check_git(installed: bool) -> (r: CheckResult)
    ensures
        r@ == (CheckView {
            name: "git"@,
            installed,
            detail: if installed {
                "installed"@
            } else {
                "not found — install git first"@
            },
        }),
{
    let detail = if installed {
        "installed".to_owned()
    } else {
        "not found — install git first".to_owned()
    };
    CheckResult { name: "git".to_owned(), installed, detail }
}

/// How what was found of a program is shown.
pub open spec fn check_line(c: CheckView) -> Seq<char> {
    "  "@ + (if c.installed {
        styled("\x1b[32m"@, "✓"@)
    } else {
        styled("\x1b[31m"@, "✗"@)
    }) + " "@ + styled("\x1b[1m"@, c.name) + ": "@ + c.detail
}

impl CheckResult {
    /// How what was found is shown.
    pub fn line(&self) -> (r: String)
        ensures
            r@ == check_line(self@),
    {
        let mut r = "  ".to_owned();
        if self.installed {
            r.append(green("✓").as_str());
        } else {
            r.append(red("✗").as_str());
        }
        r.append(" ");
        r.append(bold(self.name.as_str()).as_str());
        r.append(": ");
        r.append(self.detail.as_str());
        r
    }
}

/// How a question is put: with what an empty answer stands for as a capital letter.
pub fn question_line(question: &str, default: bool) -> (r: String)
    ensures
        r@ == question@ + (if default {
            " [Y/n] "@
        } else {
            " [y/N] "@
        }),
{
    let mut r = question.to_owned();
    if default {
        r.append(" [Y/n] ");
    } else {
        r.append(" [y/N] ");
    }
    r
}

/// What an answer stands for.
pub open spec fn answer_of(line: Seq<char>, default: bool) -> bool {
    let t = text::lower_text(text::trimmed(line));
    if t == "y"@ || t == "yes"@ {
        true
    } else if t == "n"@ || t == "no"@ {
        false
    } else {
        default
    }
}

/// Whether a word, in small letters, is a yes or a no; what is asked for otherwise.
pub fn answer_from(word: &str, default: bool) -> (r: bool)
    ensures
        r == (if word@ == "y"@ || word@ == "yes"@ {
            true
        } else if word@ == "n"@ || word@ == "no"@ {
            false
        } else {
            default
        }),
{
    if str_eq(word, "y") || str_eq(word, "yes") {
        true
    } else if str_eq(word, "n") || str_eq(word, "no") {
        false
    } else {
        default
    }
}

/// What the answer to a question stands for, given the line that was read, if one could be.
pub fn prompt_yn(line: Option<&str>, default: bool) -> (r: bool)
    ensures
        r == (match text::opt_str(line) {
            Some(l) => answer_of(l, default),
            None => default,
        }),
{
    match line {
        Some(l) => answer_from(to_lowercase(trim(l).as_str()).as_str(), default),
        None => default,
    }
}

/// The word for that many entries.
pub open spec fn entries_word(n: nat) -> Seq<char> {
    if n == 1 {
        "entry"@
    } else {
        "entries"@
    }
}

/// The word for that many entries.
pub fn entries(n: usize) -> (r: &'static str)
    ensures
        r@ == entries_word(n as nat),
{
    if n == 1 {
        "entry"
    } else {
        "entries"
    }
}

/// Texts, each shown in a style behind a sign.
pub open spec fn item_lines(s: Seq<Seq<char>>, on: Seq<char>, sign: Seq<char>) -> Seq<Seq<char>> {
    s.map_values(|t: Seq<char>| "    "@ + styled(on, sign + t))
}

/// Shows each text of a list in a style behind a sign.
fn push_items(out: &mut Vec<String>, items: &Vec<String>, on: &str, sign: &str)
    ensures
        text::texts(final(out)@) == text::texts(old(out)@) + item_lines(
            text::texts(items@),
            on@,
            sign@,
        ),
{
    let ghost want = item_lines(text::texts(items@), on@, sign@);
    let ghost start = text::texts(out@);
    let mut i: usize = 0;
    proof {
        assert(start + want.take(0) =~= start);
    }
    while i < items.len()
        invariant
            i <= items.len(),
            want == item_lines(text::texts(items@), on@, sign@),
            text::texts(out@) == start + want.take(i as int),
        decreases items.len() - i,
    {
        let ghost before = out@;
        let mut line = "    ".to_owned();
        let marked = sign.to_owned().concat(items[i].as_str());
        line.append(style(on, marked.as_str()).as_str());
        out.push(line);
        proof {
            assert(text::texts(out@) =~= text::texts(before).push(want[i as int]));
            assert(start + want.take(i + 1) =~= (start + want.take(i as int)).push(
                want[i as int],
            ));
        }
        i += 1;
    }
    proof {
        assert(want.take(want.len() as int) =~= want);
    }
}

/// Puts a line behind others.
fn push_line(out: &mut Vec<String>, line: String)
    ensures
        text::texts(final(out)@) == text::texts(old(out)@).push(line@),
{
    out.push(line);
    proof {
        assert(text::texts(out@) =~= text::texts(old(out)@).push(line@));
    }
}

/// A heading: a word in bold.
pub open spec fn heading(word: Seq<char>) -> Seq<char> {
    "  "@ + styled("\x1b[1m"@, word) + ":"@
}

/// A heading: a word in bold.
fn heading_line(word: &str) -> (r: String)
    ensures
        r@ == heading(word@),
{
    let mut r = "  ".to_owned();
    r.append(bold(word).as_str());
    r.append(":");
    r
}

/// How what is recommended is shown.
pub open spec fn overview(
    allow: Seq<Seq<char>>,
    deny: Seq<Seq<char>>,
    ask: Seq<Seq<char>>,
) -> Seq<Seq<char>> {
    seq![heading("allow"@)] + item_lines(allow, "\x1b[32m"@, "+ "@) + seq![heading("deny"@)]
        + item_lines(deny, "\x1b[31m"@, "- "@) + seq![heading("ask"@)] + item_lines(
        ask,
        "\x1b[33m"@,
        "? "@,
    )
}

/// How what is recommended is shown.
pub fn overview_lines(recommended: &RecommendedPermissions) -> (r: Vec<String>)
    ensures
        text::texts(r@) == overview(
            text::texts(recommended.allow@),
            text::texts(recommended.deny@),
            text::texts(recommended.ask@),
        ),
{
    let mut r: Vec<String> = Vec::new();
    proof {
        assert(text::texts(r@) =~= Seq::empty());
    }
    push_line(&mut r, heading_line("allow"));
    push_items(&mut r, &recommended.allow, "\x1b[32m", "+ ");
    push_line(&mut r, heading_line("deny"));
    push_items(&mut r, &recommended.deny, "\x1b[31m", "- ");
    push_line(&mut r, heading_line("ask"));
    push_items(&mut r, &recommended.ask, "\x1b[33m", "? ");
    proof {
        assert(text::texts(r@) =~= overview(
            text::texts(recommended.allow@),
            text::texts(recommended.deny@),
            text::texts(recommended.ask@),
        ));
    }
    r
}

/// How what is missing in a category is shown, if anything is.
pub open spec fn diff_lines_of(d: DiffView) -> Seq<Seq<char>> {
    if d.missing.len() == 0 {
        Seq::empty()
    } else {
        seq![
            "  "@ + styled("\x1b[1m"@, d.category) + " — missing "@ + num::digits(d.missing.len())
                + " recommended "@ + entries_word(d.missing.len()) + ":"@,
        ] + item_lines(d.missing, "\x1b[32m"@, "+ "@)
    }
}

/// The texts of a set as a list.
fn list_of(set: &TextSet) -> (r: Vec<String>)
    ensures
        text::texts(r@) == set@,
{
    let n: usize = set.len();
    let mut r: Vec<String> = Vec::new();
    let mut i: usize = 0;
    while i < n
        invariant
            i <= n == set@.len(),
            r.len() == i,
            forall|k: int| 0 <= k < i ==> (#[trigger] r@[k])@ == set@[k],
        decreases n - i,
    {
        r.push(set.get(i).to_owned());
        i += 1;
    }
    proof {
        assert(text::texts(r@) =~= set@);
    }
    r
}

impl PermissionDiff {
    /// How what is missing is shown, if anything is.
    pub fn lines(&self) -> (r: Vec<String>)
        ensures
            text::texts(r@) == diff_lines_of(self@),
    {
        let mut r: Vec<String> = Vec::new();
        proof {
            assert(text::texts(r@) =~= Seq::empty());
        }
        if self.is_aligned() {
            return r;
        }
        let n: usize = self.missing.len();
        let mut line = "  ".to_owned();
        line.append(bold(self.category.as_str()).as_str());
        line.append(" — missing ");
        line.append(digits_text(n as u128).as_str());
        line.append(" recommended ");
        line.append(entries(n));
        line.append(":");
        push_line(&mut r, line);
        let list = list_of(&self.missing);
        push_items(&mut r, &list, "\x1b[32m", "+ ");
        proof {
            assert(text::texts(r@) =~= diff_lines_of(self@));
        }
        r
    }
}

/// How the permissions that are there are shown in a category.
pub open spec fn current_lines_of(settings: JsonView, category: Seq<char>, on: Seq<char>) -> Seq<
    Seq<char>,
> {
    let s = permissions_of(settings, category);
    if s.len() == 0 {
        Seq::empty()
    } else {
        seq![heading(category)] + item_lines(s, on, ""@)
    }
}

/// Shows the permissions that are there in a category.
fn push_current(out: &mut Vec<String>, settings: &Value, category: &str, on: &str)
    ensures
        text::texts(final(out)@) == text::texts(old(out)@) + current_lines_of(
            json::json_view(*settings),
            category@,
            on@,
        ),
{
    let set = get_permission_set(settings, category);
    if set.is_empty() {
        proof {
            assert(text::texts(out@) + Seq::<Seq<char>>::empty() =~= text::texts(out@));
        }
        return;
    }
    let ghost before = text::texts(out@);
    push_line(out, heading_line(category));
    let list = list_of(&set);
    push_items(out, &list, on, "");
    proof {
        assert(text::texts(out@) =~= before + current_lines_of(
            json::json_view(*settings),
            category@,
            on@,
        ));
    }
}

/// How the permissions that are there are shown.
pub fn print_current_permissions(settings: &Value) -> (r: Vec<String>)
    ensures
        text::texts(r@) == current_lines_of(json::json_view(*settings), "allow"@, "\x1b[32m"@)
            + current_lines_of(json::json_view(*settings), "deny"@, "\x1b[31m"@)
            + current_lines_of(json::json_view(*settings), "ask"@, "\x1b[33m"@),
{
    let mut r: Vec<String> = Vec::new();
    proof {
        assert(text::texts(r@) =~= Seq::empty());
    }
    push_current(&mut r, settings, "allow", "\x1b[32m");
    push_current(&mut r, settings, "deny", "\x1b[31m");
    push_current(&mut r, settings, "ask", "\x1b[33m");
    proof {
        let v = json::json_view(*settings);
        assert(text::texts(r@) =~= current_lines_of(v, "allow"@, "\x1b[32m"@) + current_lines_of(
            v,
            "deny"@,
            "\x1b[31m"@,
        ) + current_lines_of(v, "ask"@, "\x1b[33m"@));
    }
    r
}

/// How many entries are missing in all.
pub open spec fn total_missing(d: Seq<DiffView>) -> nat
    decreases d.len(),
{
    if d.len() == 0 {
        0
    } else {
        total_missing(d.drop_last()) + d.last().missing.len()
    }
}

/// What the user is told where entries are missing in an assistant's settings.
pub open spec fn status_text(n: nat, assistant: Seq<char>) -> Option<Seq<char>> {
    if n == 0 {
        None
    } else {
        Some(
            num::digits(n) + " recommended "@ + text::capitalised(assistant) + " permission"@ + (if n == 1 {
                ""@
            } else {
                "s"@
            }) + " missing — press c to configure"@,
        )
    }
}

/// How many entries are missing in all, if that can be counted.
fn count_missing(diffs: &Vec<PermissionDiff>) -> (r: u128)
    requires
        diffs.len() <= 3,
    ensures
        r == total_missing(diff_views(diffs@)),
{
    let ghost all = diff_views(diffs@);
    let mut n: u128 = 0;
    let mut i: usize = 0;
    proof {
        assert(all.take(0) =~= Seq::empty());
    }
    while i < diffs.len()
        invariant
            i <= diffs.len() <= 3,
            all == diff_views(diffs@),
            n == total_missing(all.take(i as int)),
            n <= i * usize::MAX,
        decreases diffs.len() - i,
    {
        proof {
            assert(all.take(i + 1).drop_last() =~= all.take(i as int));
            assert(all.take(i + 1).last() == diffs@[i as int]@);
        }
        n = n + diffs[i].missing.len() as u128;
        i += 1;
    }
    proof {
        assert(all.take(all.len() as int) =~= all);
    }
    n
}

/// What the user is told where recommended permissions are missing in the assistant's settings.
pub fn check_config_status(
    settings: &Value,
    recommended: &RecommendedPermissions,
    assistant: &str,
) -> (r: Option<String>)
    ensures
        text::opt_text(r) == status_text(
            total_missing(
                diffs_of(
                    json::json_view(*settings),
                    text::texts(recommended.allow@),
                    text::texts(recommended.deny@),
                    text::texts(recommended.ask@),
                ),
            ),
            assistant@,
        ),
{
    let diffs = compute_diffs(settings, recommended);
    proof {
        assert(diff_views(diffs@).len() == 3);
    }
    let n: u128 = count_missing(&diffs);
    if n == 0 {
        return None;
    }
    let mut s = digits_text(n);
    s.append(" recommended ");
    s.append(text::capitalise(assistant).as_str());
    s.append(" permission");
    if n != 1 {
        s.append("s");
    } else {
        s.append("");
    }
    s.append(" missing — press c to configure");
    Some(s)
}

/// Where the settings of an assistant are, under a home directory.
pub fn claude_settings_path(home: &str, assistant: &str) -> (r: String)
    ensures
        r@ == paths::joined(paths::joined(home@, paths::dotted(assistant@)), "settings.json"@),
{
    join(join(home, hidden_name(assistant).as_str()).as_str(), "settings.json")
}

/// The assistant's settings from what their file holds: no settings where there is no file, and
/// nothing where it holds no JSON.
pub fn read_settings(content: Option<&str>) -> (r: Option<Value>)
    ensures
        match text::opt_str(content) {
            Some(c) => match r {
                Some(v) => json::json_parsed(c) == Some(json::json_view(v)),
                None => json::json_parsed(c) is None,
            },
            None => r matches Some(v) && json::json_view(v) == JsonView::Object(Map::empty()),
        },
{
    match content {
        Some(c) => json::parse(c),
        None => Some(json::empty_object()),
    }
}

/// How a settings file is written.
pub fn settings_text(settings: &Value) -> (r: String)
    ensures
        r@ == json::json_pretty(json::json_view(*settings)) + "\n"@,
{
    let mut s = json::print_pretty(settings);
    s.append("\n");
    s
}

/// The assistant's settings, what is recommended, and what is missing of it.
#[derive(Debug)]
pub struct ConfigStatus {
    pub diffs: Vec<PermissionDiff>,
    pub settings_path: String,
    pub settings: Value,
    pub recommended: RecommendedPermissions,
}

impl ConfigStatus {
    /// What is missing is what is recommended and not in the settings.
    pub open spec fn wf(&self) -> bool {
        &&& diff_views(self.diffs@) == diffs_of(
            json::json_view(self.settings),
            text::texts(self.recommended.allow@),
            text::texts(self.recommended.deny@),
            text::texts(self.recommended.ask@),
        )
        &&& forall|i: int|
            0 <= i < self.diffs@.len() ==> textset::ascending(
                (#[trigger] self.diffs@[i]).missing@,
            )
    }
}

/// What is missing in the assistant's settings.
pub fn load_config_status(
    settings: Value,
    settings_path: String,
    recommended: RecommendedPermissions,
) -> (r: ConfigStatus)
    ensures
        r.wf(),
        r.settings == settings,
        r.settings_path == settings_path,
        r.recommended == recommended,
{
    let diffs = compute_diffs(&settings, &recommended);
    ConfigStatus { diffs, settings_path, settings, recommended }
}

/// Adds all that is missing to the assistant's settings. Returns how many entries were added; where
/// none were, the settings stay as they are. Refused as adding permissions is.
pub fn apply_all_recommendations(status: &mut ConfigStatus) -> (r: Result<u128, PermissionError>)
    requires
        old(status).wf(),
    ensures
        final(status).wf(),
        final(status).recommended == old(status).recommended,
        final(status).settings_path == old(status).settings_path,
        ({
            let v = json::json_view(old(status).settings);
            let d = diff_views(old(status).diffs@);
            let n = total_missing(d);
            if n == 0 {
                r == Ok::<u128, PermissionError>(0) && *final(status) == *old(status)
            } else {
                match permissions_added(v, d) {
                    Ok(w) => {
                        &&& r matches Ok(k)
                        &&& k == n
                        &&& json::json_view(final(status).settings) == w
                        &&& total_missing(diff_views(final(status).diffs@)) == 0
                    },
                    Err(e) => r == Err::<u128, PermissionError>(e) && *final(status) == *old(
                        status,
                    ),
                }
            }
        }),
{
    let ghost d = diff_views(status.diffs@);
    proof {
        assert(d.len() == 3);
        assert(status.diffs@.len() == 3);
    }
    let n: u128 = count_missing(&status.diffs);
    if n == 0 {
        return Ok(0);
    }
    let mut settings = json::duplicate(&status.settings);
    let outcome = add_all(&mut settings, &status.diffs);
    match outcome {
        Ok(_) => {
            let diffs = compute_diffs(&settings, &status.recommended);
            proof {
                let allow = text::texts(status.recommended.allow@);
                let deny = text::texts(status.recommended.deny@);
                let ask = text::texts(status.recommended.ask@);
                applying_all_aligns(json::json_view(status.settings), allow, deny, ask);
                let left = diffs_of(json::json_view(settings), allow, deny, ask);
                assert(total_missing(left) == 0) by {
                    reveal_with_fuel(total_missing, 4);
                    assert(left.drop_last().drop_last().drop_last() =~= Seq::empty());
                    assert(left.drop_last().drop_last().last() == left[0]);
                    assert(left.drop_last().last() == left[1]);
                }
            }
            status.settings = settings;
            status.diffs = diffs;
            Ok(n)
        },
        Err(e) => Err(e),
    }
}

/// Adds what is missing in each category.
fn add_all(settings: &mut Value, diffs: &Vec<PermissionDiff>) -> (r: Result<(), PermissionError>)
    ensures
        match permissions_added(json::json_view(*old(settings)), diff_views(diffs@)) {
            Ok(v) => r is Ok && json::json_view(*final(settings)) == v,
            Err(e) => r == Err::<(), PermissionError>(e) && *final(settings) == *old(settings),
        },
{
    let mut list: Vec<(&str, &TextSet)> = Vec::new();
    let mut i: usize = 0;
    while i < diffs.len()
        invariant
            i <= diffs.len(),
            list.len() == i,
            forall|k: int|
                0 <= k < i ==> (#[trigger] list@[k]).0@ == diffs@[k].category@ && list@[k].1@
                    == diffs@[k].missing@,
        decreases diffs.len() - i,
    {
        list.push((diffs[i].category.as_str(), &diffs[i].missing));
        i += 1;
    }
    proof {
        assert(addition_views(list@) =~= diff_views(diffs@));
    }
    apply_permission_changes(settings, list.as_slice())
}

/// The texts of an array are found exactly where they are among its elements.
proof fn lemma_text_among(s: Seq<JsonView>, t: Seq<char>)
    ensures
        texts_in(s).contains(t) == s.contains(JsonView::Text(t)),
    decreases s.len(),
{
    if s.len() > 0 {
        let rest = s.drop_last();
        lemma_text_among(rest, t);
        assert(s[s.len() - 1] == s.last());
        if rest.contains(JsonView::Text(t)) {
            let k = choose|k: int| 0 <= k < rest.len() && rest[k] == JsonView::Text(t);
            assert(s[k] == JsonView::Text(t));
        }
        if s.contains(JsonView::Text(t)) && s.last() != JsonView::Text(t) {
            let k = choose|k: int| 0 <= k < s.len() && s[k] == JsonView::Text(t);
            assert(rest[k] == JsonView::Text(t));
        }
        if let Some(x) = json::as_text(s.last()) {
            let front = texts_in(rest);
            assert(texts_in(s) == front.push(x));
            assert(front.push(x)[front.len() as int] == x);
            if front.contains(t) {
                let k = choose|k: int| 0 <= k < front.len() && front[k] == t;
                assert(front.push(x)[k] == t);
            }
            if front.push(x).contains(t) && x != t {
                let k = choose|k: int| 0 <= k < front.push(x).len() && front.push(x)[k] == t;
                assert(front[k] == t);
            }
        }
    }
}

/// What is missing of a category is exactly what is recommended and does not stand in the list that the
/// settings have under its name.
pub proof fn missing_is_recommended_and_not_there(
    settings: JsonView,
    category: Seq<char>,
    recommended: Seq<Seq<char>>,
    t: Seq<char>,
)
    ensures
        ({
            let list = match json::member(settings, "permissions"@) {
                Some(p) => json::member(p, category),
                None => None,
            };
            let there = list is Some && list->Some_0 is Array && list->Some_0->Array_0.contains(
                JsonView::Text(t),
            );
            &&& permissions_of(settings, category).contains(t) == there
            &&& diff_of(settings, category, recommended).missing.contains(t) == (
            recommended.contains(t) && !there)
            &&& diff_of(settings, category, recommended).category == category
        }),
{
    let list = match json::member(settings, "permissions"@) {
        Some(p) => json::member(p, category),
        None => None,
    };
    if let Some(JsonView::Array(a)) = list {
        lemma_text_among(a, t);
        textset::ordering_keeps_texts(texts_in(a));
    }
    textset::ordering_keeps_texts(recommended);
    let wanted = textset::ordered(recommended);
    let have = permissions_of(settings, category);
    let p = |x: Seq<char>| !have.contains(x);
    let kept = wanted.filter(p);
    assert(wanted.contains(t) == recommended.contains(t));
    if kept.contains(t) {
        let i = choose|i: int| 0 <= i < kept.len() && kept[i] == t;
        let k = crate::rows::lemma_filter_member(wanted, p, i);
    }
    if wanted.contains(t) && p(t) {
        let k = choose|k: int| 0 <= k < wanted.len() && wanted[k] == t;
        let m = crate::rows::lemma_filter_keeps(wanted, p, k);
    }
}

/// What is recommended is compared with the settings category by category: what may be done, what may
/// not, and what must be asked for.
pub proof fn each_category_is_compared(
    settings: JsonView,
    allow: Seq<Seq<char>>,
    deny: Seq<Seq<char>>,
    ask: Seq<Seq<char>>,
)
    ensures
        diffs_of(settings, allow, deny, ask).len() == 3,
        diffs_of(settings, allow, deny, ask)[0] == diff_of(settings, "allow"@, allow),
        diffs_of(settings, allow, deny, ask)[1] == diff_of(settings, "deny"@, deny),
        diffs_of(settings, allow, deny, ask)[2] == diff_of(settings, "ask"@, ask),
{
}

/// What is missing is counted over all categories, and the user is told how much it is exactly where it
/// is anything.
pub proof fn missing_entries_are_counted(d: Seq<DiffView>, x: DiffView, assistant: Seq<char>, n: nat)
    ensures
        total_missing(d.push(x)) == total_missing(d) + x.missing.len(),
        total_missing(Seq::empty()) == 0,
        (status_text(n, assistant) is None) == (n == 0),
        n > 0 ==> num::digits(n).is_prefix_of(status_text(n, assistant)->Some_0),
{
    assert(d.push(x).drop_last() =~= d);
    if n > 0 {
        let t = status_text(n, assistant)->Some_0;
        assert(t.subrange(0, num::digits(n).len() as int) =~= num::digits(n));
    }
}

/// A yes is a yes and a no is a no, in any case and with any white space around it; anything else is
/// what is taken otherwise.
pub proof fn answers_are_understood(line: Seq<char>, default: bool)
    ensures
        ({
            let word = text::lower_text(text::trimmed(line));
            &&& word == "y"@ || word == "yes"@ ==> answer_of(line, default)
            &&& word == "n"@ || word == "no"@ ==> !answer_of(line, default)
            &&& word != "y"@ && word != "yes"@ && word != "n"@ && word != "no"@ ==> answer_of(
                line,
                default,
            ) == default
        }),
{
    reveal_strlit("y");
    reveal_strlit("yes");
    reveal_strlit("n");
    reveal_strlit("no");
    assert("y"@[0] == 'y' && "yes"@[0] == 'y' && "n"@[0] == 'n' && "no"@[0] == 'n');
}

/// Everything that is recommended, missing or there is shown on a line of its own, with the sign of
/// its category.
pub proof fn permissions_are_shown(
    allow: Seq<Seq<char>>,
    deny: Seq<Seq<char>>,
    ask: Seq<Seq<char>>,
    d: DiffView,
    i: int,
)
    ensures
        overview(allow, deny, ask).len() == 3 + allow.len() + deny.len() + ask.len(),
        0 <= i < allow.len() ==> overview(allow, deny, ask)[1 + i] == "    "@ + ("\x1b[32m"@ + (
        "+ "@ + allow[i]) + "\x1b[0m"@),
        0 <= i < deny.len() ==> overview(allow, deny, ask)[2 + allow.len() + i] == "    "@ + (
        "\x1b[31m"@ + ("- "@ + deny[i]) + "\x1b[0m"@),
        0 <= i < ask.len() ==> overview(allow, deny, ask)[3 + allow.len() + deny.len() + i]
            == "    "@ + ("\x1b[33m"@ + ("? "@ + ask[i]) + "\x1b[0m"@),
        d.missing.len() == 0 ==> diff_lines_of(d).len() == 0,
        d.missing.len() > 0 ==> diff_lines_of(d).len() == 1 + d.missing.len(),
        0 <= i < d.missing.len() ==> diff_lines_of(d)[1 + i] == "    "@ + ("\x1b[32m"@ + ("+ "@
            + d.missing[i]) + "\x1b[0m"@),
{
}

/// What was found of a program is shown with a sign for whether it is there, its name and what is known of
/// it; the permissions that are there are shown one by one under the name of their category.
pub proof fn findings_are_shown(
    c: CheckView,
    settings: JsonView,
    category: Seq<char>,
    on: Seq<char>,
    i: int,
)
    ensures
        c.detail.is_suffix_of(check_line(c)),
        c.installed ==> check_line(c) == "  "@ + ("\x1b[32m"@ + "✓"@ + "\x1b[0m"@) + " "@ + (
        "\x1b[1m"@ + c.name + "\x1b[0m"@) + ": "@ + c.detail,
        !c.installed ==> check_line(c) == "  "@ + ("\x1b[31m"@ + "✗"@ + "\x1b[0m"@) + " "@ + (
        "\x1b[1m"@ + c.name + "\x1b[0m"@) + ": "@ + c.detail,
        permissions_of(settings, category).len() == 0 ==> current_lines_of(
            settings,
            category,
            on,
        ).len() == 0,
        0 <= i < permissions_of(settings, category).len() ==> current_lines_of(
            settings,
            category,
            on,
        ).len() == 1 + permissions_of(settings, category).len() && current_lines_of(
            settings,
            category,
            on,
        )[1 + i] == "    "@ + (on + (""@ + permissions_of(settings, category)[i]) + "\x1b[0m"@),
{
    let l = check_line(c);
    assert(l.subrange(l.len() - c.detail.len(), l.len() as int) =~= c.detail);
}

} // verus!
