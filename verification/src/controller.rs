//! Decisions of the web front end about the Python script controller: whether
//! it runs, what its settings are, what the navigation bar offers, and the
//! CPU temperature read from the firmware tool.

use vstd::prelude::*;
use crate::protocol::{cbor_decode_text_map, decode_reply, entries_view, keys_ascending};
use crate::text::{
    chars_of, contains_text, decimal_text, is_digit, lemma_found_anywhere,
    lemma_found_somewhere, lemma_parse_rendered, lemma_rendered_has_no, lemma_split_three,
    parse_u32, parse_u32_spec, remove_all, remove_pattern, spells_at, split_at_char,
    split_text, string_of, text_contains,
};

verus! {

/// A setting shown as a slider: a value between a minimum and a maximum.
pub struct Slider {
    pub name: String,
    pub min: u32,
    pub max: u32,
    pub value: u32,
}

/// A setting shown as a plain text field.
pub struct Variable {
    pub name: String,
    pub value: String,
}

impl Slider {
    /// Name, minimum, value and maximum.
    pub open spec fn model(&self) -> (Seq<char>, u32, u32, u32) {
        (self.name@, self.min, self.value, self.max)
    }
}

impl Variable {
    /// Name and value.
    pub open spec fn model(&self) -> (Seq<char>, Seq<char>) {
        (self.name@, self.value@)
    }
}

/// The models of a list of sliders.
pub open spec fn sliders_view(sliders: Seq<Slider>) -> Seq<(Seq<char>, u32, u32, u32)> {
    sliders.map_values(|s: Slider| s.model())
}

/// The models of a list of variables.
pub open spec fn variables_view(vars: Seq<Variable>) -> Seq<(Seq<char>, Seq<char>)> {
    vars.map_values(|v: Variable| v.model())
}

/// Name of the script that the controller runs.
pub open spec fn controller_script() -> Seq<char> {
    "demo_controller_app.py"@
}

/// Whether the process list shows the controller script running.
pub fn is_running(process_list: &str) -> (r: bool)
    ensures
        r == contains_text(process_list@, controller_script()),
{
    let hay = chars_of(process_list);
    let needle = chars_of("demo_controller_app.py");
    text_contains(&hay, &needle)
}

/// The CPU temperature shown to the user: the output of the temperature
/// command with every `temp=` removed.
pub fn get_cpu_temp(command_output: &str) -> (r: String)
    ensures
        r@ == remove_all(command_output@, "temp="@),
{
    let text = chars_of(command_output);
    let pattern = chars_of("temp=");
    proof {
        reveal_strlit("temp=");
    }
    let stripped = remove_pattern(&text, &pattern);
    string_of(&stripped)
}

/// A setting value is shown as a slider when it holds a `:`.
pub open spec fn is_slider_text(value: Seq<char>) -> bool {
    contains_text(value, seq![':'])
}

/// A slider value `min:value:max` whose first three pieces are numbers
/// (further pieces are ignored).
pub open spec fn valid_slider_text(value: Seq<char>) -> bool {
    let pieces = split_text(value, ':');
    &&& pieces.len() >= 3
    &&& parse_u32_spec(pieces[0]) is Some
    &&& parse_u32_spec(pieces[1]) is Some
    &&& parse_u32_spec(pieces[2]) is Some
}

/// The slider of a setting.
pub open spec fn slider_of(name: Seq<char>, value: Seq<char>) -> (Seq<char>, u32, u32, u32) {
    let pieces = split_text(value, ':');
    (
        name,
        parse_u32_spec(pieces[0])->0,
        parse_u32_spec(pieces[1])->0,
        parse_u32_spec(pieces[2])->0,
    )
}

/// Settings that every slider value of which is valid.
pub open spec fn valid_settings(entries: Seq<(Seq<char>, Seq<char>)>) -> bool {
    forall|k: int|
        0 <= k < entries.len() && is_slider_text(#[trigger] entries[k].1) ==> valid_slider_text(
            entries[k].1,
        )
}

/// The sliders of the settings, in order.
pub open spec fn settings_sliders(entries: Seq<(Seq<char>, Seq<char>)>) -> Seq<
    (Seq<char>, u32, u32, u32),
>
    decreases entries.len(),
{
    if entries.len() == 0 {
        Seq::empty()
    } else if is_slider_text(entries.last().1) {
        settings_sliders(entries.drop_last()).push(slider_of(entries.last().0, entries.last().1))
    } else {
        settings_sliders(entries.drop_last())
    }
}

/// The plain settings, in order.
pub open spec fn settings_others(entries: Seq<(Seq<char>, Seq<char>)>) -> Seq<
    (Seq<char>, Seq<char>),
>
    decreases entries.len(),
{
    if entries.len() == 0 {
        Seq::empty()
    } else if is_slider_text(entries.last().1) {
        settings_others(entries.drop_last())
    } else {
        settings_others(entries.drop_last()).push(entries.last())
    }
}

/// Parses a slider value `min:value:max`.
fn parse_slider(name: String, value: &String) -> (r: Slider)
    requires
        valid_slider_text(value@),
    ensures
        r.model() == slider_of(name@, value@),
{
    let text = chars_of(value.as_str());
    let pieces = split_at_char(&text, ':');
    let min = parse_u32(&pieces[0]);
    let val = parse_u32(&pieces[1]);
    let max = parse_u32(&pieces[2]);
    Slider { name, min: min.unwrap(), value: val.unwrap(), max: max.unwrap() }
}

/// Checks that every slider value of the settings is valid.
pub fn check_settings(entries: &Vec<(String, String)>) -> (r: bool)
    ensures
        r == valid_settings(entries_view(entries@)),
{
    let n = entries.len();
    let colon = vec![':'];
    for k in 0..n
        invariant
            n == entries@.len(),
            colon@ == seq![':'],
            forall|j: int|
                0 <= j < k && is_slider_text(#[trigger] entries_view(entries@)[j].1)
                    ==> valid_slider_text(entries_view(entries@)[j].1),
    {
        let text = chars_of(entries[k].1.as_str());
        if text_contains(&text, &colon) {
            let pieces = split_at_char(&text, ':');
            let ok = pieces.len() >= 3 && parse_u32(&pieces[0]).is_some() && parse_u32(
                &pieces[1],
            ).is_some() && parse_u32(&pieces[2]).is_some();
            if !ok {
                assert(!valid_slider_text(entries_view(entries@)[k as int].1));
                return false;
            }
        }
    }
    true
}

/// Sorts the settings into sliders and plain variables, keeping their order.
pub fn classify_settings(entries: &Vec<(String, String)>) -> (r: (Vec<Slider>, Vec<Variable>))
    requires
        valid_settings(entries_view(entries@)),
    ensures
        sliders_view(r.0@) == settings_sliders(entries_view(entries@)),
        variables_view(r.1@) == settings_others(entries_view(entries@)),
{
    let ghost all = entries_view(entries@);
    let mut sliders: Vec<Slider> = Vec::new();
    let mut others: Vec<Variable> = Vec::new();
    let colon = vec![':'];
    let n = entries.len();
    for k in 0..n
        invariant
            n == entries@.len(),
            all == entries_view(entries@),
            valid_settings(all),
            colon@ == seq![':'],
            sliders_view(sliders@) == settings_sliders(all.take(k as int)),
            variables_view(others@) == settings_others(all.take(k as int)),
    {
        let ghost prefix = all.take(k + 1);
        assert(prefix.drop_last() =~= all.take(k as int));
        assert(prefix.last() == all[k as int]);
        let name = entries[k].0.clone();
        let value = entries[k].1.clone();
        let text = chars_of(value.as_str());
        if text_contains(&text, &colon) {
            assert(is_slider_text(all[k as int].1));
            let slider = parse_slider(name, &value);
            let ghost before = sliders_view(sliders@);
            sliders.push(slider);
            assert(sliders_view(sliders@) =~= before.push(slider_of(all[k as int].0, all[k as int].1)));
        } else {
            let ghost before = variables_view(others@);
            others.push(Variable { name, value });
            assert(variables_view(others@) =~= before.push(all[k as int]));
        }
    }
    assert(all.take(n as int) =~= all);
    (sliders, others)
}

/// The decoded settings reply of the controller (distinct names in ascending
/// order), sorted into sliders and plain variables; `None` where the reply
/// is no CBOR map of texts or holds a slider value that is not
/// `min:value:max` with three numbers.
pub fn get_settings(reply: &[u8]) -> (r: Option<(Vec<Slider>, Vec<Variable>)>)
    ensures
        match r {
            Some(settings) => {
                &&& cbor_decode_text_map(reply@) is Some
                &&& keys_ascending(cbor_decode_text_map(reply@)->0)
                &&& valid_settings(cbor_decode_text_map(reply@)->0)
                &&& sliders_view(settings.0@) == settings_sliders(cbor_decode_text_map(reply@)->0)
                &&& variables_view(settings.1@) == settings_others(
                    cbor_decode_text_map(reply@)->0,
                )
            },
            None => cbor_decode_text_map(reply@) is None || !valid_settings(
                cbor_decode_text_map(reply@)->0,
            ),
        },
{
    match decode_reply(reply) {
        Some(entries) => {
            if check_settings(&entries) {
                Some(classify_settings(&entries))
            } else {
                None
            }
        },
        None => None,
    }
}

/// The decoded state reply of the controller, with distinct keys in
/// ascending order; `None` where it is no CBOR map of texts.
pub fn get_state(reply: &[u8]) -> (r: Option<Vec<(String, String)>>)
    ensures
        match r {
            Some(entries) => cbor_decode_text_map(reply@) == Some(entries_view(entries@))
                && keys_ascending(entries_view(entries@)),
            None => cbor_decode_text_map(reply@) is None,
        },
{
    decode_reply(reply)
}

/// The value of the first entry with the given key.
pub open spec fn lookup(entries: Seq<(Seq<char>, Seq<char>)>, key: Seq<char>) -> Option<Seq<char>>
    decreases entries.len(),
{
    if entries.len() == 0 {
        None
    } else if entries[0].0 == key {
        Some(entries[0].1)
    } else {
        lookup(entries.drop_first(), key)
    }
}

/// The action and icon of the navigation bar for a controller state: a
/// running script offers to pause, a paused one to resume; without a state,
/// or without a `paused` entry, nothing is offered.
pub open spec fn navbar_spec(state: Option<Seq<(Seq<char>, Seq<char>)>>) -> (Seq<char>, Seq<char>) {
    match state {
        None => (""@, "x-circle"@),
        Some(entries) => match lookup(entries, "paused"@) {
            None => (""@, "x-circle"@),
            Some(paused) => if paused == "false"@ {
                ("pause"@, "pause"@)
            } else {
                ("unpause"@, "play"@)
            },
        },
    }
}

/// Whether two texts are equal.
fn text_eq(a: &Vec<char>, b: &Vec<char>) -> (r: bool)
    ensures
        r == (a@ == b@),
{
    if a.len() != b.len() {
        return false;
    }
    let n = a.len();
    for k in 0..n
        invariant
            n == a@.len(),
            n == b@.len(),
            forall|j: int| 0 <= j < k ==> a@[j] == b@[j],
    {
        if a[k] != b[k] {
            return false;
        }
    }
    assert(a@ =~= b@);
    true
}

/// Finds the value of the first entry with the given key.
fn find_entry(entries: &Vec<(String, String)>, key: &Vec<char>) -> (r: Option<Vec<char>>)
    ensures
        match r {
            Some(v) => lookup(entries_view(entries@), key@) == Some(v@),
            None => lookup(entries_view(entries@), key@) is None,
        },
{
    let ghost all = entries_view(entries@);
    let n = entries.len();
    assert(all.skip(0) =~= all);
    for k in 0..n
        invariant
            n == entries@.len(),
            all == entries_view(entries@),
            lookup(all, key@) == lookup(all.skip(k as int), key@),
    {
        let ghost rest = all.skip(k as int);
        assert(rest[0] == all[k as int]);
        assert(rest.drop_first() =~= all.skip(k + 1));
        let name = chars_of(entries[k].0.as_str());
        if text_eq(&name, key) {
            return Some(chars_of(entries[k].1.as_str()));
        }
    }
    assert(all.skip(n as int) =~= Seq::<(Seq<char>, Seq<char>)>::empty());
    None
}

/// The action and icon of the navigation bar. `state` is the decoded state
/// reply of the controller, or `None` when the controller does not run or
/// did not answer.
pub fn get_navbar_info(state: Option<&Vec<(String, String)>>) -> (r: (String, String))
    ensures
        (r.0@, r.1@) == navbar_spec(
            match state {
                Some(entries) => Some(entries_view(entries@)),
                None => None,
            },
        ),
{
    match state {
        None => ("".to_owned(), "x-circle".to_owned()),
        Some(entries) => {
            let key = chars_of("paused");
            match find_entry(entries, &key) {
                None => ("".to_owned(), "x-circle".to_owned()),
                Some(paused) => {
                    let no = chars_of("false");
                    if text_eq(&paused, &no) {
                        ("pause".to_owned(), "pause".to_owned())
                    } else {
                        ("unpause".to_owned(), "play".to_owned())
                    }
                },
            }
        },
    }
}


/// Every setting lands in exactly one of the two lists: there are as many
/// sliders and plain variables together as there are settings.
pub proof fn lemma_settings_partition(entries: Seq<(Seq<char>, Seq<char>)>)
    ensures
        settings_sliders(entries).len() + settings_others(entries).len() == entries.len(),
    decreases entries.len(),
{
    if entries.len() > 0 {
        lemma_settings_partition(entries.drop_last());
    }
}


/// The controller is seen running wherever its script name stands in the
/// process list: any text before or after it, other processes included,
/// does not hide it.
pub proof fn lemma_running_anywhere(before: Seq<char>, after: Seq<char>)
    ensures
        contains_text(before + controller_script() + after, controller_script()),
{
    let whole = before + controller_script() + after;
    assert forall|k: int| 0 <= k < controller_script().len() implies whole[before.len() + k]
        == #[trigger] controller_script()[k] by {
        assert(whole[before.len() + k] == controller_script()[k]);
    }
    assert(spells_at(whole, controller_script(), before.len() as int));
    lemma_found_anywhere(whole, controller_script(), before.len() as int);
}

/// A setting is a slider exactly when its value holds a `:`.
pub proof fn lemma_slider_iff_colon(value: Seq<char>)
    ensures
        is_slider_text(value) <==> value.contains(':'),
{
    if is_slider_text(value) {
        lemma_found_somewhere(value, seq![':']);
        let i = choose|i: int| #[trigger] spells_at(value, seq![':'], i);
        assert(seq![':'][0] == ':');
        assert(value[i + 0] == ':');
    }
    if value.contains(':') {
        let i = choose|i: int| 0 <= i < value.len() && value[i] == ':';
        assert(seq![':'][0] == ':');
        assert(spells_at(value, seq![':'], i));
        lemma_found_anywhere(value, seq![':'], i);
    }
}

/// The slider text `a:b:c` of three numbers, each written in decimal.
pub open spec fn slider_text(a: u32, b: u32, c: u32) -> Seq<char> {
    decimal_text(a as nat) + seq![':'] + decimal_text(b as nat) + seq![':'] + decimal_text(
        c as nat,
    )
}

/// Every slider text of three numbers is accepted, whatever the numbers
/// and their order, and reads back as the slider with minimum `a`, value
/// `b` and maximum `c`.
pub proof fn lemma_rendered_slider(name: Seq<char>, a: u32, b: u32, c: u32)
    ensures
        is_slider_text(slider_text(a, b, c)),
        valid_slider_text(slider_text(a, b, c)),
        slider_of(name, slider_text(a, b, c)) == (name, a, b, c),
{
    let t = slider_text(a, b, c);
    assert(!is_digit(':'));
    lemma_rendered_has_no(a as nat, ':');
    lemma_rendered_has_no(b as nat, ':');
    lemma_rendered_has_no(c as nat, ':');
    lemma_split_three(decimal_text(a as nat), decimal_text(b as nat), decimal_text(c as nat), ':');
    lemma_parse_rendered(a);
    lemma_parse_rendered(b);
    lemma_parse_rendered(c);
    let la = decimal_text(a as nat).len();
    assert(t[la as int] == ':');
    lemma_slider_iff_colon(t);
}

/// Settings whose every slider value is a slider text of three numbers are
/// valid, so `get_settings` accepts every such reply that decodes.
pub proof fn lemma_rendered_settings_valid(entries: Seq<(Seq<char>, Seq<char>)>)
    requires
        forall|k: int|
            0 <= k < entries.len() && (#[trigger] entries[k]).1.contains(':') ==> exists|
                a: u32,
                b: u32,
                c: u32,
            | entries[k].1 == #[trigger] slider_text(a, b, c),
    ensures
        valid_settings(entries),
{
    assert forall|k: int|
        0 <= k < entries.len() && is_slider_text(#[trigger] entries[k].1) implies valid_slider_text(
        entries[k].1,
    ) by {
        lemma_slider_iff_colon(entries[k].1);
        let (a, b, c) = choose|a: u32, b: u32, c: u32| entries[k].1 == slider_text(a, b, c);
        lemma_rendered_slider(entries[k].0, a, b, c);
    }
}

/// Whether a setting's value holds a `:`.
pub open spec fn has_colon(e: (Seq<char>, Seq<char>)) -> bool {
    e.1.contains(':')
}

/// Every setting whose value holds a `:` is a slider and every other one a
/// plain variable: the sliders are those settings, in order, each read as
/// `min:value:max`, and the variables are exactly the other settings.
pub proof fn lemma_settings_split(entries: Seq<(Seq<char>, Seq<char>)>)
    ensures
        settings_sliders(entries) == entries.filter(|e: (Seq<char>, Seq<char>)| has_colon(e)).map_values(
            |e: (Seq<char>, Seq<char>)| slider_of(e.0, e.1),
        ),
        settings_others(entries) == entries.filter(|e: (Seq<char>, Seq<char>)| !has_colon(e)),
        settings_sliders(entries).len() == entries.filter(
            |e: (Seq<char>, Seq<char>)| has_colon(e),
        ).len(),
    decreases entries.len(),
{
    reveal(Seq::filter);
    let colon = |e: (Seq<char>, Seq<char>)| has_colon(e);
    let plain = |e: (Seq<char>, Seq<char>)| !has_colon(e);
    let read = |e: (Seq<char>, Seq<char>)| slider_of(e.0, e.1);
    if entries.len() == 0 {
        assert(entries.filter(colon) =~= Seq::<(Seq<char>, Seq<char>)>::empty());
        assert(entries.filter(plain) =~= Seq::<(Seq<char>, Seq<char>)>::empty());
        assert(entries.filter(colon).map_values(read) =~= Seq::<(Seq<char>, u32, u32, u32)>::empty());
    } else {
        lemma_settings_split(entries.drop_last());
        lemma_slider_iff_colon(entries.last().1);
        let sub = entries.drop_last().filter(colon);
        if has_colon(entries.last()) {
            assert(entries.filter(colon) == sub.push(entries.last()));
            assert(sub.push(entries.last()).map_values(read) =~= sub.map_values(read).push(
                read(entries.last()),
            ));
        } else {
            assert(entries.filter(colon) == sub);
        }
    }
}

} // verus!
