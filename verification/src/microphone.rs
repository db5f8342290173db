//! The rows of the microphone picker: the system default first (with the
//! default device's name), then every active input, same-name inputs told
//! apart by the end of their endpoint ID, a row for a saved input that is
//! missing, and a status row. The selection is found by ID, so it survives
//! a reordered list.
use vstd::prelude::*;

use crate::audio_devices::InputDevice;
use crate::text::{chars_of, push_chars, push_str, same_chars, string_of};

verus! {

/// The mathematical content of an [`InputDevice`].
pub struct DeviceView {
    pub id: Seq<char>,
    pub name: Seq<char>,
    pub is_default: bool,
}

pub open spec fn device_view(d: InputDevice) -> DeviceView {
    DeviceView { id: d.id@, name: d.name@, is_default: d.is_default }
}

pub open spec fn device_views(d: Seq<InputDevice>) -> Seq<DeviceView> {
    d.map_values(|x: InputDevice| device_view(x))
}

/// The picker's texts in the display language.
#[derive(Debug, Clone)]
pub struct PickerTexts {
    /// "System default".
    pub default_input: String,
    /// A saved input that the loaded list does not hold.
    pub unavailable: String,
    /// The list is still being loaded.
    pub checking: String,
    /// Loading the list failed.
    pub failed: String,
    /// The loaded list is empty.
    pub none: String,
}

pub struct PickerTextsView {
    pub default_input: Seq<char>,
    pub unavailable: Seq<char>,
    pub checking: Seq<char>,
    pub failed: Seq<char>,
    pub none: Seq<char>,
}

impl View for PickerTexts {
    type V = PickerTextsView;

    open spec fn view(&self) -> PickerTextsView {
        PickerTextsView {
            default_input: self.default_input@,
            unavailable: self.unavailable@,
            checking: self.checking@,
            failed: self.failed@,
            none: self.none@,
        }
    }
}

/// One row of the list: its text, the endpoint ID it selects (empty for the
/// system default, none for a status row) and the device name.
#[derive(Debug, Clone)]
pub struct PickerRow {
    pub label: String,
    pub id: Option<String>,
    pub name: String,
}

pub struct RowView {
    pub label: Seq<char>,
    pub id: Option<Seq<char>>,
    pub name: Seq<char>,
}

pub open spec fn row_view(r: PickerRow) -> RowView {
    RowView {
        label: r.label@,
        id: match r.id {
            Some(s) => Some(s@),
            None => None,
        },
        name: r.name@,
    }
}

pub open spec fn row_views(r: Seq<PickerRow>) -> Seq<RowView> {
    r.map_values(|x: PickerRow| row_view(x))
}

/// The part of an ID after its last `{` (the whole ID without one).
pub open spec fn after_last_brace(id: Seq<char>) -> Seq<char>
    decreases id.len(),
{
    if id.len() == 0 {
        id
    } else if id.last() == '{' {
        Seq::empty()
    } else {
        after_last_brace(id.drop_last()).push(id.last())
    }
}

/// Trailing `}` removed.
pub open spec fn without_closing_braces(s: Seq<char>) -> Seq<char>
    decreases s.len(),
{
    if s.len() > 0 && s.last() == '}' {
        without_closing_braces(s.drop_last())
    } else {
        s
    }
}

/// The end of an endpoint ID that tells same-name inputs apart.
pub open spec fn id_suffix(id: Seq<char>) -> Seq<char> {
    without_closing_braces(after_last_brace(id))
}

/// The first default device.
pub open spec fn first_default(d: Seq<DeviceView>) -> Option<DeviceView>
    decreases d.len(),
{
    if d.len() == 0 {
        None
    } else {
        match first_default(d.drop_last()) {
            Some(x) => Some(x),
            None => if d.last().is_default {
                Some(d.last())
            } else {
                None
            },
        }
    }
}

pub open spec fn default_label(d: Seq<DeviceView>, t: PickerTextsView) -> Seq<char> {
    t.default_input + match first_default(d) {
        Some(x) => " — "@ + x.name,
        None => Seq::empty(),
    }
}

/// Another input has the same name.
pub open spec fn is_duplicate(d: Seq<DeviceView>, i: int) -> bool {
    exists|j: int| 0 <= j < d.len() && j != i && #[trigger] d[j].name == d[i].name
}

/// An input's label: its name, with the end of its ID in brackets first
/// when another input has the same name.
pub open spec fn device_label(d: Seq<DeviceView>, i: int) -> Seq<char> {
    if is_duplicate(d, i) {
        "["@ + id_suffix(d[i].id) + "] "@ + d[i].name
    } else {
        d[i].name
    }
}

pub open spec fn device_row(d: Seq<DeviceView>, i: int) -> RowView {
    RowView { label: device_label(d, i), id: Some(d[i].id), name: d[i].name }
}

/// The default row, then a row per input in list order.
pub open spec fn base_rows(d: Seq<DeviceView>, t: PickerTextsView) -> Seq<RowView> {
    seq![RowView { label: default_label(d, t), id: Some(Seq::empty()), name: Seq::empty() }]
        + Seq::new(d.len(), |i: int| device_row(d, i))
}

/// The first row that selects `id`.
pub open spec fn find_id(rows: Seq<RowView>, id: Seq<char>) -> Option<int>
    decreases rows.len(),
{
    if rows.len() == 0 {
        None
    } else {
        match find_id(rows.drop_last(), id) {
            Some(k) => Some(k),
            None => if rows.last().id == Some(id) {
                Some(rows.len() - 1)
            } else {
                None
            },
        }
    }
}

pub open spec fn status_row(label: Seq<char>) -> RowView {
    RowView { label, id: None, name: Seq::empty() }
}

/// The rows, the selected row and the saved input's name afterwards.
pub open spec fn picker(
    d: Seq<DeviceView>,
    selected_id: Seq<char>,
    selected_name: Seq<char>,
    loaded: bool,
    pending: bool,
    error: Option<Seq<char>>,
    t: PickerTextsView,
) -> (Seq<RowView>, int, Seq<char>) {
    let base = base_rows(d, t);
    let found = find_id(base, selected_id);
    let rows = if selected_id.len() > 0 && found is None {
        base.push(
            status_row(
                (if loaded && error is None {
                    t.unavailable
                } else {
                    t.checking
                }) + " — "@ + (if selected_name.len() == 0 {
                    selected_id
                } else {
                    selected_name
                }),
            ),
        )
    } else {
        base
    };
    let index = match found {
        Some(k) => k,
        None => rows.len() - 1,
    };
    let name = match found {
        Some(k) => if k > 0 {
            base[k].name
        } else {
            selected_name
        },
        None => selected_name,
    };
    let all = if pending {
        rows.push(status_row(t.checking))
    } else if error is Some {
        rows.push(status_row(t.failed + ": "@ + error.unwrap()))
    } else if loaded && d.len() == 0 {
        rows.push(status_row(t.none))
    } else {
        rows
    };
    (all, index, name)
}

fn id_suffix_exec(id: &[char]) -> (r: Vec<char>)
    ensures
        r@ == id_suffix(id@),
{
    let mut tail: Vec<char> = Vec::new();
    let mut i: usize = 0;
    while i < id.len()
        invariant
            0 <= i <= id@.len(),
            tail@ == after_last_brace(id@.take(i as int)),
        decreases id@.len() - i,
    {
        proof {
            assert(id@.take(i as int + 1).drop_last() =~= id@.take(i as int));
        }
        if id[i] == '{' {
            tail = Vec::new();
        } else {
            tail.push(id[i]);
        }
        i = i + 1;
    }
    proof {
        assert(id@.take(id@.len() as int) =~= id@);
    }
    let ghost whole = tail@;
    while tail.len() > 0 && tail[tail.len() - 1] == '}'
        invariant
            without_closing_braces(tail@) == without_closing_braces(whole),
        decreases tail@.len(),
    {
        tail.pop();
    }
    tail
}

fn same_text(a: &str, b: &str) -> (r: bool)
    ensures
        r == (a@ == b@),
{
    same_chars(chars_of(a).as_slice(), chars_of(b).as_slice())
}

/// Once a prefix holds a default device, the whole list has the same first one.
proof fn lemma_first_default_prefix(d: Seq<DeviceView>, n: int)
    requires
        0 <= n <= d.len(),
        first_default(d.take(n)) is Some,
    ensures
        first_default(d) == first_default(d.take(n)),
    decreases d.len() - n,
{
    if n < d.len() {
        assert(d.drop_last().take(n) =~= d.take(n));
        lemma_first_default_prefix(d.drop_last(), n);
    } else {
        assert(d.take(n) =~= d);
    }
}

/// Once a prefix holds a row for `id`, the whole list finds the same row.
proof fn lemma_find_id_prefix(rows: Seq<RowView>, id: Seq<char>, n: int)
    requires
        0 <= n <= rows.len(),
        find_id(rows.take(n), id) is Some,
    ensures
        find_id(rows, id) == find_id(rows.take(n), id),
    decreases rows.len() - n,
{
    if n < rows.len() {
        assert(rows.drop_last().take(n) =~= rows.take(n));
        lemma_find_id_prefix(rows.drop_last(), id, n);
    } else {
        assert(rows.take(n) =~= rows);
    }
}

proof fn lemma_find_id_bounds(rows: Seq<RowView>, id: Seq<char>)
    ensures
        find_id(rows, id) matches Some(k) ==> 0 <= k < rows.len() && rows[k].id == Some(id),
    decreases rows.len(),
{
    if rows.len() > 0 {
        lemma_find_id_bounds(rows.drop_last(), id);
    }
}

fn default_label_exec(devices: &Vec<InputDevice>, texts: &PickerTexts) -> (r: Vec<char>)
    ensures
        r@ == default_label(device_views(devices@), texts@),
{
    let ghost d = device_views(devices@);
    let mut r = chars_of(texts.default_input.as_str());
    let mut i: usize = 0;
    while i < devices.len()
        invariant
            d == device_views(devices@),
            0 <= i <= devices@.len(),
            first_default(d.take(i as int)) is None,
            r@ == texts@.default_input,
        decreases devices@.len() - i,
    {
        proof {
            assert(d.take(i as int + 1).drop_last() =~= d.take(i as int));
            assert(d.take(i as int + 1).last() == d[i as int]);
        }
        if devices[i].is_default {
            push_str(&mut r, " — ");
            push_str(&mut r, devices[i].name.as_str());
            proof {
                lemma_first_default_prefix(d, i as int + 1);
            }
            return r;
        }
        i = i + 1;
    }
    proof {
        assert(d.take(devices@.len() as int) =~= d);
        assert(r@ + Seq::<char>::empty() =~= r@);
    }
    r
}

fn duplicate_name(devices: &Vec<InputDevice>, i: usize) -> (r: bool)
    requires
        i < devices@.len(),
    ensures
        r == is_duplicate(device_views(devices@), i as int),
{
    let ghost d = device_views(devices@);
    let mut j: usize = 0;
    while j < devices.len()
        invariant
            d == device_views(devices@),
            i < devices@.len(),
            0 <= j <= devices@.len(),
            forall|k: int| 0 <= k < j && k != i ==> #[trigger] d[k].name != d[i as int].name,
        decreases devices@.len() - j,
    {
        if j != i && same_text(devices[j].name.as_str(), devices[i].name.as_str()) {
            assert(d[j as int].name == d[i as int].name);
            return true;
        }
        j = j + 1;
    }
    false
}

fn device_label_exec(devices: &Vec<InputDevice>, i: usize) -> (r: Vec<char>)
    requires
        i < devices@.len(),
    ensures
        r@ == device_label(device_views(devices@), i as int),
{
    let name = chars_of(devices[i].name.as_str());
    if duplicate_name(devices, i) {
        let mut r: Vec<char> = Vec::new();
        push_str(&mut r, "[");
        let suffix = id_suffix_exec(chars_of(devices[i].id.as_str()).as_slice());
        push_chars(&mut r, suffix.as_slice());
        push_str(&mut r, "] ");
        push_chars(&mut r, name.as_slice());
        r
    } else {
        name
    }
}

fn status(label: Vec<char>) -> (r: PickerRow)
    ensures
        row_view(r) == status_row(label@),
{
    PickerRow { label: string_of(label.as_slice()), id: None, name: String::new() }
}

fn push_row(rows: &mut Vec<PickerRow>, row: PickerRow)
    ensures
        row_views(final(rows)@) == row_views(old(rows)@).push(row_view(row)),
{
    rows.push(row);
    proof {
        assert(row_views(rows@) =~= row_views(old(rows)@).push(row_view(row)));
    }
}

/// The picker's rows for the loaded inputs, with the row to select and the
/// saved input's name afterwards (the selected input's name when it was
/// found by ID, else unchanged). `pending`: the list is being loaded;
/// `error`: loading it failed.
pub fn microphone_rows(
    devices: &Vec<InputDevice>,
    selected_id: &str,
    selected_name: &str,
    loaded: bool,
    pending: bool,
    error: &Option<String>,
    texts: &PickerTexts,
) -> (r: (Vec<PickerRow>, usize, String))
    ensures
        ({
            let p = picker(
                device_views(devices@),
                selected_id@,
                selected_name@,
                loaded,
                pending,
                match error {
                    Some(e) => Some(e@),
                    None => None,
                },
                texts@,
            );
            row_views(r.0@) == p.0 && r.1 == p.1 && r.2@ == p.2
        }),
{
    let ghost d = device_views(devices@);
    let ghost t = texts@;
    let ghost base = base_rows(d, t);
    let mut rows: Vec<PickerRow> = Vec::new();
    let first = default_label_exec(devices, texts);
    push_row(
        &mut rows,
        PickerRow { label: string_of(first.as_slice()), id: Some(String::new()), name: String::new() },
    );
    proof {
        assert(row_views(rows@) =~= base.take(1));
    }
    let mut i: usize = 0;
    while i < devices.len()
        invariant
            d == device_views(devices@),
            t == texts@,
            base == base_rows(d, t),
            0 <= i <= devices@.len(),
            row_views(rows@) == base.take(i as int + 1),
        decreases devices@.len() - i,
    {
        let label = device_label_exec(devices, i);
        let row = PickerRow {
            label: string_of(label.as_slice()),
            id: Some(devices[i].id.clone()),
            name: devices[i].name.clone(),
        };
        push_row(&mut rows, row);
        proof {
            assert(base[i as int + 1] == device_row(d, i as int));
            assert(base.take(i as int + 2) =~= base.take(i as int + 1).push(base[i as int + 1]));
        }
        i = i + 1;
    }
    proof {
        assert(base.take(devices@.len() as int + 1) =~= base);
    }
    let mut found: Option<usize> = None;
    let mut k: usize = 0;
    while k < rows.len()
        invariant_except_break
            found is None,
            find_id(base.take(k as int), selected_id@) is None,
        invariant
            row_views(rows@) == base,
            0 <= k <= rows@.len(),
        ensures
            found matches Some(j) ==> find_id(base, selected_id@) == Some(j as int),
            found is None ==> find_id(base.take(rows@.len() as int), selected_id@) is None,
        decreases rows@.len() - k,
    {
        proof {
            assert(base.take(k as int + 1).drop_last() =~= base.take(k as int));
            assert(base.take(k as int + 1).last() == base[k as int]);
            assert(base[k as int] == row_view(rows@[k as int]));
        }
        let hit = match &rows[k].id {
            Some(id) => same_text(id.as_str(), selected_id),
            None => false,
        };
        if hit {
            proof {
                lemma_find_id_prefix(base, selected_id@, k as int + 1);
            }
            found = Some(k);
            break;
        }
        k = k + 1;
    }
    proof {
        assert(base.take(rows@.len() as int) =~= base);
        lemma_find_id_bounds(base, selected_id@);
        assert(base.len() == d.len() + 1);
        assert(row_views(rows@).len() == rows@.len());
        assert(rows@.len() == base.len());
    }
    let ghost err = match error {
        Some(e) => Some(e@),
        None => None,
    };
    let ghost p = picker(d, selected_id@, selected_name@, loaded, pending, err, t);
    let ghost rows1 = if selected_id@.len() > 0 && find_id(base, selected_id@) is None {
        base.push(
            status_row(
                (if loaded && err is None {
                    t.unavailable
                } else {
                    t.checking
                }) + " — "@ + (if selected_name@.len() == 0 {
                    selected_id@
                } else {
                    selected_name@
                }),
            ),
        )
    } else {
        base
    };
    if !selected_id.is_empty() && found.is_none() {
        let mut label: Vec<char> = Vec::new();
        if loaded && error.is_none() {
            push_str(&mut label, texts.unavailable.as_str());
        } else {
            push_str(&mut label, texts.checking.as_str());
        }
        push_str(&mut label, " — ");
        if selected_name.is_empty() {
            push_str(&mut label, selected_id);
        } else {
            push_str(&mut label, selected_name);
        }
        push_row(&mut rows, status(label));
    }
    assert(row_views(rows@) == rows1);
    proof {
        assert(row_views(rows@).len() == rows@.len());
    }
    let index = match found {
        Some(k) => k,
        None => rows.len() - 1,
    };
    let name = match found {
        Some(k) => if k > 0 {
            rows[k].name.clone()
        } else {
            string_of(chars_of(selected_name).as_slice())
        },
        None => string_of(chars_of(selected_name).as_slice()),
    };
    if pending {
        push_row(&mut rows, status(chars_of(texts.checking.as_str())));
    } else if let Some(e) = error {
        let mut label = chars_of(texts.failed.as_str());
        push_str(&mut label, ": ");
        push_str(&mut label, e.as_str());
        push_row(&mut rows, status(label));
    } else if loaded && devices.len() == 0 {
        push_row(&mut rows, status(chars_of(texts.none.as_str())));
    }
    assert(index == p.1);
    assert(name@ == p.2);
    assert(row_views(rows@) == p.0);
    (rows, index, name)
}

proof fn lemma_find_id_some(rows: Seq<RowView>, id: Seq<char>, j: int)
    requires
        0 <= j < rows.len(),
        rows[j].id == Some(id),
    ensures
        find_id(rows, id) is Some,
    decreases rows.len(),
{
    if j < rows.len() - 1 {
        assert(rows.drop_last()[j] == rows[j]);
        lemma_find_id_some(rows.drop_last(), id, j);
    }
}

/// Inputs with the same name get different labels when their IDs end
/// differently, so identical names stay distinguishable.
pub proof fn same_names_stay_distinguishable(d: Seq<DeviceView>, i: int, j: int)
    requires
        0 <= i < d.len(),
        0 <= j < d.len(),
        i != j,
        d[i].name == d[j].name,
        id_suffix(d[i].id) != id_suffix(d[j].id),
    ensures
        device_label(d, i) != device_label(d, j),
{
    reveal_strlit("[");
    reveal_strlit("] ");
    assert(is_duplicate(d, i) && is_duplicate(d, j)) by {
        assert(d[j].name == d[i].name);
        assert(d[i].name == d[j].name);
    }
    let a = id_suffix(d[i].id);
    let b = id_suffix(d[j].id);
    if device_label(d, i) == device_label(d, j) {
        let x = device_label(d, i);
        assert(x.len() == a.len() + 3 + d[i].name.len());
        assert(a.len() == b.len());
        assert forall|k: int| 0 <= k < a.len() implies a[k] == b[k] by {
            assert(x[k + 1] == a[k]);
            assert(device_label(d, j)[k + 1] == b[k]);
        }
        assert(a =~= b);
    }
}

/// A saved input that is in the list stays selected wherever it now stands:
/// the selected row is the one with its ID.
pub proof fn saved_input_is_found_by_id(
    d: Seq<DeviceView>,
    selected_id: Seq<char>,
    selected_name: Seq<char>,
    loaded: bool,
    pending: bool,
    error: Option<Seq<char>>,
    t: PickerTextsView,
    i: int,
)
    requires
        0 <= i < d.len(),
        d[i].id == selected_id,
    ensures
        ({
            let p = picker(d, selected_id, selected_name, loaded, pending, error, t);
            0 <= p.1 < p.0.len() && p.0[p.1].id == Some(selected_id)
        }),
{
    let base = base_rows(d, t);
    assert(base[i + 1] == device_row(d, i));
    lemma_find_id_some(base, selected_id, i + 1);
    lemma_find_id_bounds(base, selected_id);
}

} // verus!
