use vstd::prelude::*;

use crate::strutil::spec_digit;
use crate::strutil::spec_int_str;
use vstd::string::StrSliceExecFns;
use vstd::string::StringExecFns;

verus! {

/// A JSON-shaped value: what the variable store holds and what the driver's
/// script calls return. Numbers are kept as signed integers; the source
/// format's floating-point numbers are not representable here.
#[derive(Debug)]
pub enum Value {
    Null,
    Bool(bool),
    Num(i64),
    Str(String),
    Arr(Vec<Value>),
    Obj(Vec<ObjEntry>),
}

/// One field of a JSON-shaped object value.
#[derive(Debug)]
pub struct ObjEntry {
    pub key: String,
    pub val: Value,
}

/// The mathematical shape of a `Value`: every container and string is
/// replaced by its sequence abstraction.
pub enum ValueV {
    Null,
    Bool(bool),
    Num(int),
    Str(Seq<char>),
    Arr(Seq<ValueV>),
    Obj(Seq<(Seq<char>, ValueV)>),
}

pub open spec fn value_rep(v: Value) -> ValueV
    decreases v,
{
    match v {
        Value::Null => ValueV::Null,
        Value::Bool(b) => ValueV::Bool(b),
        Value::Num(n) => ValueV::Num(n as int),
        Value::Str(s) => ValueV::Str(s@),
        Value::Arr(items) => ValueV::Arr(arr_rep(items@)),
        Value::Obj(entries) => ValueV::Obj(obj_rep(entries@)),
    }
}

pub open spec fn arr_rep(items: Seq<Value>) -> Seq<ValueV>
    decreases items,
{
    if items.len() == 0 {
        Seq::empty()
    } else {
        seq![value_rep(items[0])] + arr_rep(items.skip(1))
    }
}

pub open spec fn obj_rep(entries: Seq<ObjEntry>) -> Seq<(Seq<char>, ValueV)>
    decreases entries,
{
    if entries.len() == 0 {
        Seq::empty()
    } else {
        seq![(entries[0].key@, value_rep(entries[0].val))] + obj_rep(entries.skip(1))
    }
}

impl View for Value {
    type V = ValueV;

    open spec fn view(&self) -> ValueV {
        value_rep(*self)
    }
}

pub broadcast proof fn lemma_arr_rep_len(items: Seq<Value>)
    ensures
        (#[trigger] arr_rep(items)).len() == items.len(),
    decreases items,
{
    if items.len() > 0 {
        lemma_arr_rep_len(items.skip(1));
    }
}

pub broadcast proof fn lemma_arr_rep_index(items: Seq<Value>, i: int)
    requires
        0 <= i < items.len(),
    ensures
        #[trigger] arr_rep(items)[i] == value_rep(items[i]),
    decreases items,
{
    lemma_arr_rep_len(items);
    if i > 0 {
        lemma_arr_rep_index(items.skip(1), i - 1);
    }
}

/// How a value reads as plain text: strings verbatim, numbers and booleans
/// literal, null empty, arrays comma-joined, objects as a fixed token.
pub open spec fn spec_plain(v: ValueV) -> Seq<char>
    decreases v,
{
    match v {
        ValueV::Null => Seq::empty(),
        ValueV::Bool(b) => if b {
            "true"@
        } else {
            "false"@
        },
        ValueV::Num(n) => spec_int_str(n),
        ValueV::Str(s) => s,
        ValueV::Arr(items) => spec_plain_list(items),
        ValueV::Obj(_) => "[object Object]"@,
    }
}

pub open spec fn spec_plain_list(items: Seq<ValueV>) -> Seq<char>
    decreases items,
{
    if items.len() == 0 {
        Seq::empty()
    } else if items.len() == 1 {
        spec_plain(items[0])
    } else {
        spec_plain(items[0]) + seq![','] + spec_plain_list(items.skip(1))
    }
}

pub broadcast proof fn lemma_obj_rep_len(entries: Seq<ObjEntry>)
    ensures
        (#[trigger] obj_rep(entries)).len() == entries.len(),
    decreases entries,
{
    if entries.len() > 0 {
        lemma_obj_rep_len(entries.skip(1));
    }
}

pub broadcast proof fn lemma_obj_rep_index(entries: Seq<ObjEntry>, i: int)
    requires
        0 <= i < entries.len(),
    ensures
        #[trigger] obj_rep(entries)[i] == (entries[i].key@, value_rep(entries[i].val)),
    decreases entries,
{
    lemma_obj_rep_len(entries);
    if i > 0 {
        lemma_obj_rep_index(entries.skip(1), i - 1);
    }
}

/// Sequences of values with pointwise equal shapes have equal shapes.
proof fn lemma_arr_rep_ext(a: Seq<Value>, b: Seq<Value>)
    requires
        a.len() == b.len(),
        forall|i: int| 0 <= i < a.len() ==> value_rep(a[i]) == value_rep(b[i]),
    ensures
        arr_rep(a) == arr_rep(b),
{
    broadcast use lemma_arr_rep_len, lemma_arr_rep_index;

    assert(arr_rep(a) =~= arr_rep(b));
}

proof fn lemma_obj_rep_ext(a: Seq<ObjEntry>, b: Seq<ObjEntry>)
    requires
        a.len() == b.len(),
        forall|i: int|
            0 <= i < a.len() ==> a[i].key@ == b[i].key@ && value_rep(a[i].val) == value_rep(
                b[i].val,
            ),
    ensures
        obj_rep(a) == obj_rep(b),
{
    broadcast use lemma_obj_rep_len, lemma_obj_rep_index;

    assert(obj_rep(a) =~= obj_rep(b));
}

/// A deep copy: the result has exactly the shape of the argument.
#[verifier::loop_isolation(false)]
pub fn clone_value(v: &Value) -> (r: Value)
    ensures
        r@ == v@,
    decreases v,
{
    match v {
        Value::Null => Value::Null,
        Value::Bool(b) => Value::Bool(*b),
        Value::Num(n) => Value::Num(*n),
        Value::Str(s) => Value::Str(s.clone()),
        Value::Arr(items) => {
            let mut out: Vec<Value> = Vec::new();
            let mut i: usize = 0;
            while i < items.len()
                invariant
                    i <= items.len(),
                    out@.len() == i,
                    forall|j: int| 0 <= j < i ==> value_rep(out@[j]) == value_rep(items@[j]),
                decreases items.len() - i,
            {
                proof {
                    assert(decreases_to!(*v => v->Arr_0));
                    vstd::std_specs::vec::axiom_vec_index_decreases::<Value>(*items, i as int);
                    assert(decreases_to!(*v => items@[i as int]));
                }
                let c = clone_value(&items[i]);
                out.push(c);
                i += 1;
            }
            proof {
                lemma_arr_rep_ext(out@, items@);
            }
            Value::Arr(out)
        },
        Value::Obj(entries) => {
            let mut out: Vec<ObjEntry> = Vec::new();
            let mut i: usize = 0;
            while i < entries.len()
                invariant
                    i <= entries.len(),
                    out@.len() == i,
                    forall|j: int|
                        0 <= j < i ==> out@[j].key@ == entries@[j].key@ && value_rep(out@[j].val)
                            == value_rep(entries@[j].val),
                decreases entries.len() - i,
            {
                proof {
                    assert(decreases_to!(*v => v->Obj_0));
                    vstd::std_specs::vec::axiom_vec_index_decreases::<ObjEntry>(*entries, i as int);
                    assert(decreases_to!(entries@[i as int] => entries@[i as int].val));
                    assert(decreases_to!(*v => entries@[i as int].val));
                }
                let c = ObjEntry { key: entries[i].key.clone(), val: clone_value(&entries[i].val) };
                out.push(c);
                i += 1;
            }
            proof {
                lemma_obj_rep_ext(out@, entries@);
            }
            Value::Obj(out)
        },
    }
}

impl Clone for Value {
    /// A deep copy: the clone has exactly the shape of the original.
    fn clone(&self) -> (r: Self)
        ensures
            r@ == self@,
    {
        clone_value(self)
    }
}

/// Extending a list by one element extends its comma-joined rendering.
proof fn lemma_plain_list_snoc(items: Seq<ValueV>, i: int)
    requires
        1 <= i < items.len(),
    ensures
        spec_plain_list(items.take(i + 1)) == spec_plain_list(items.take(i)) + seq![',']
            + spec_plain(items[i]),
    decreases i,
{
    if i == 1 {
        assert(items.take(2).skip(1) =~= seq![items[1]]);
        assert(seq![items[1]].len() == 1);
        assert(seq![items[1]][0] == items[1]);
        assert(items.take(2).len() == 2);
        assert(items.take(2)[0] == items[0]);
        assert(items.take(1).len() == 1);
        assert(items.take(1)[0] == items[0]);
        assert(spec_plain_list(items.take(1)) == spec_plain(items[0]));
        assert(spec_plain_list(seq![items[1]]) == spec_plain(items[1]));
        assert(spec_plain_list(items.take(2)) == spec_plain(items[0]) + seq![','] + spec_plain(
            items[1],
        ));
        assert(spec_plain_list(items.take(2)) =~= spec_plain_list(items.take(1)) + seq![',']
            + spec_plain(items[1]));
    } else {
        lemma_plain_list_snoc(items.skip(1), i - 1);
        assert(items.take(i + 1).skip(1) =~= items.skip(1).take(i));
        assert(items.take(i).skip(1) =~= items.skip(1).take(i - 1));
        assert(items.take(i + 1)[0] == items[0]);
        assert(items.take(i)[0] == items[0]);
        assert(items.skip(1)[i - 1] == items[i]);
        assert(spec_plain_list(items.take(i + 1)) =~= spec_plain_list(items.take(i)) + seq![',']
            + spec_plain(items[i]));
    }
}

/// Render a value as plain human-readable text.
#[verifier::loop_isolation(false)]
pub fn plain_text(v: &Value) -> (r: String)
    ensures
        r@ == spec_plain(v@),
    decreases v,
{
    match v {
        Value::Null => String::new(),
        Value::Bool(b) => {
            if *b {
                "true".to_owned()
            } else {
                "false".to_owned()
            }
        },
        Value::Num(n) => crate::strutil::i64_to_string(*n),
        Value::Str(s) => s.clone(),
        Value::Obj(_) => "[object Object]".to_owned(),
        Value::Arr(items) => {
            let ghost reps: Seq<ValueV> = arr_rep(items@);
            let mut out = String::new();
            let mut i: usize = 0;
            proof {
                broadcast use lemma_arr_rep_len, lemma_arr_rep_index;

                assert(reps.take(0) =~= Seq::<ValueV>::empty());
            }
            while i < items.len()
                invariant
                    i <= items.len(),
                    reps == arr_rep(items@),
                    reps.len() == items@.len(),
                    forall|j: int| 0 <= j < items@.len() ==> reps[j] == value_rep(items@[j]),
                    out@ == spec_plain_list(reps.take(i as int)),
                decreases items.len() - i,
            {
                if i > 0 {
                    crate::strutil::push_char(&mut out, ',');
                }
                proof {
                    assert(decreases_to!(*v => v->Arr_0));
                    vstd::std_specs::vec::axiom_vec_index_decreases::<Value>(*items, i as int);
                    assert(decreases_to!(*v => items@[i as int]));
                }
                let piece = plain_text(&items[i]);
                out.append(piece.as_str());
                proof {
                    if i == 0 {
                        assert(reps.take(1) =~= seq![reps[0]]);
                        assert(out@ =~= spec_plain_list(reps.take(1)));
                    } else {
                        lemma_plain_list_snoc(reps, i as int);
                        assert(out@ =~= spec_plain_list(reps.take(i + 1)));
                    }
                }
                i += 1;
            }
            proof {
                assert(reps.take(items@.len() as int) =~= reps);
            }
            out
        },
    }
}


/// One character as it stands inside a JSON string literal.
pub open spec fn spec_json_char(c: char) -> Seq<char> {
    if c == '"' {
        seq!['\\', '"']
    } else if c == '\\' {
        seq!['\\', '\\']
    } else if c == '\n' {
        seq!['\\', 'n']
    } else if c == '\r' {
        seq!['\\', 'r']
    } else if c == '\t' {
        seq!['\\', 't']
    } else if (c as u32) < 32 {
        seq!['\\', 'u', '0', '0', spec_digit(((c as u32) / 16) as nat), hex_digit(
            ((c as u32) % 16) as nat,
        )]
    } else {
        seq![c]
    }
}

pub open spec fn hex_digit(n: nat) -> char {
    if n < 10 {
        spec_digit(n)
    } else if n == 10 {
        'a'
    } else if n == 11 {
        'b'
    } else if n == 12 {
        'c'
    } else if n == 13 {
        'd'
    } else if n == 14 {
        'e'
    } else {
        'f'
    }
}

/// A string's characters escaped for JSON, from position `i` on.
pub open spec fn spec_json_str(s: Seq<char>, i: int) -> Seq<char>
    decreases s.len() - i when 0 <= i
{
    if i >= s.len() {
        Seq::empty()
    } else {
        spec_json_char(s[i]) + spec_json_str(s, i + 1)
    }
}

/// The compact JSON text of a value.
pub open spec fn spec_json(v: ValueV) -> Seq<char>
    decreases v,
{
    match v {
        ValueV::Null => "null"@,
        ValueV::Bool(b) => if b {
            "true"@
        } else {
            "false"@
        },
        ValueV::Num(n) => spec_int_str(n),
        ValueV::Str(s) => seq!['"'] + spec_json_str(s, 0) + seq!['"'],
        ValueV::Arr(items) => seq!['['] + spec_json_items(items) + seq![']'],
        ValueV::Obj(entries) => seq!['{'] + spec_json_entries(entries) + seq!['}'],
    }
}

pub open spec fn spec_json_items(items: Seq<ValueV>) -> Seq<char>
    decreases items,
{
    if items.len() == 0 {
        Seq::empty()
    } else if items.len() == 1 {
        spec_json(items[0])
    } else {
        spec_json(items[0]) + seq![','] + spec_json_items(items.skip(1))
    }
}

pub open spec fn spec_json_entries(entries: Seq<(Seq<char>, ValueV)>) -> Seq<char>
    decreases entries,
{
    if entries.len() == 0 {
        Seq::empty()
    } else if entries.len() == 1 {
        spec_json_entry(entries[0])
    } else {
        spec_json_entry(entries[0]) + seq![','] + spec_json_entries(entries.skip(1))
    }
}

pub open spec fn spec_json_entry(entry: (Seq<char>, ValueV)) -> Seq<char>
    decreases entry,
{
    seq!['"'] + spec_json_str(entry.0, 0) + seq!['"', ':'] + spec_json(entry.1)
}

fn hex_digit_char(n: u32) -> (c: char)
    requires
        n < 16,
    ensures
        c == hex_digit(n as nat),
{
    match n {
        0 => '0',
        1 => '1',
        2 => '2',
        3 => '3',
        4 => '4',
        5 => '5',
        6 => '6',
        7 => '7',
        8 => '8',
        9 => '9',
        10 => 'a',
        11 => 'b',
        12 => 'c',
        13 => 'd',
        14 => 'e',
        _ => 'f',
    }
}

/// Escape one string into JSON string-literal form, without the quotes.
pub(crate) fn json_escape_into(s: &str, out: &mut String)
    ensures
        final(out)@ == old(out)@ + spec_json_str(s@, 0),
{
    let n = s.unicode_len();
    let mut i: usize = 0;
    while i < n
        invariant
            i <= n,
            n == s@.len(),
            out@ == old(out)@ + spec_json_str(s@, 0).subrange(
                0,
                out@.len() - old(out)@.len(),
            ) || true,
            out@ =~= old(out)@ + spec_json_prefix(s@, i as int),
        decreases n - i,
    {
        let c = s.get_char(i);
        proof {
            lemma_json_prefix_snoc(s@, i as int);
        }
        if c == '"' {
            crate::strutil::push_char(out, '\\');
            crate::strutil::push_char(out, '"');
        } else if c == '\\' {
            crate::strutil::push_char(out, '\\');
            crate::strutil::push_char(out, '\\');
        } else if c == '\n' {
            crate::strutil::push_char(out, '\\');
            crate::strutil::push_char(out, 'n');
        } else if c == '\r' {
            crate::strutil::push_char(out, '\\');
            crate::strutil::push_char(out, 'r');
        } else if c == '\t' {
            crate::strutil::push_char(out, '\\');
            crate::strutil::push_char(out, 't');
        } else if (c as u32) < 32 {
            crate::strutil::push_char(out, '\\');
            crate::strutil::push_char(out, 'u');
            crate::strutil::push_char(out, '0');
            crate::strutil::push_char(out, '0');
            crate::strutil::push_char(out, hex_digit_char((c as u32) / 16));
            crate::strutil::push_char(out, hex_digit_char((c as u32) % 16));
        } else {
            crate::strutil::push_char(out, c);
        }
        proof {
            assert(out@ =~= old(out)@ + spec_json_prefix(s@, i + 1));
        }
        i += 1;
    }
    proof {
        lemma_json_prefix_full(s@);
    }
}

/// The escaped form of the first `i` characters.
pub open spec fn spec_json_prefix(s: Seq<char>, i: int) -> Seq<char>
    decreases i when i >= 0
{
    if i <= 0 {
        Seq::empty()
    } else {
        spec_json_prefix(s, i - 1) + spec_json_char(s[i - 1])
    }
}

proof fn lemma_json_prefix_snoc(s: Seq<char>, i: int)
    requires
        0 <= i,
    ensures
        spec_json_prefix(s, i + 1) == spec_json_prefix(s, i) + spec_json_char(s[i]),
{
}

/// The whole escaped prefix is the whole escaped string.
proof fn lemma_json_prefix_full(s: Seq<char>)
    ensures
        spec_json_prefix(s, s.len() as int) == spec_json_str(s, 0),
{
    lemma_json_prefix_agree(s, s.len() as int);
}

proof fn lemma_json_prefix_agree(s: Seq<char>, i: int)
    requires
        0 <= i <= s.len(),
    ensures
        spec_json_prefix(s, i) + spec_json_str(s, i) == spec_json_str(s, 0),
    decreases i,
{
    if i == 0 {
        assert(spec_json_prefix(s, 0) + spec_json_str(s, 0) =~= spec_json_str(s, 0));
    } else {
        lemma_json_prefix_agree(s, i - 1);
        assert(spec_json_str(s, i - 1) == spec_json_char(s[i - 1]) + spec_json_str(s, i));
        assert(spec_json_prefix(s, i) + spec_json_str(s, i) =~= spec_json_prefix(s, i - 1)
            + spec_json_str(s, i - 1));
    }
}

proof fn lemma_json_items_snoc(items: Seq<ValueV>, i: int)
    requires
        1 <= i < items.len(),
    ensures
        spec_json_items(items.take(i + 1)) == spec_json_items(items.take(i)) + seq![',']
            + spec_json(items[i]),
    decreases i,
{
    if i == 1 {
        assert(items.take(2).skip(1) =~= seq![items[1]]);
        assert(seq![items[1]].len() == 1);
        assert(seq![items[1]][0] == items[1]);
        assert(items.take(2).len() == 2);
        assert(items.take(2)[0] == items[0]);
        assert(items.take(1).len() == 1);
        assert(items.take(1)[0] == items[0]);
        assert(spec_json_items(items.take(1)) == spec_json(items[0]));
        assert(spec_json_items(seq![items[1]]) == spec_json(items[1]));
        assert(spec_json_items(items.take(2)) == spec_json(items[0]) + seq![','] + spec_json(
            items[1],
        ));
        assert(spec_json_items(items.take(2)) =~= spec_json_items(items.take(1)) + seq![',']
            + spec_json(items[1]));
    } else {
        lemma_json_items_snoc(items.skip(1), i - 1);
        assert(items.take(i + 1).skip(1) =~= items.skip(1).take(i));
        assert(items.take(i).skip(1) =~= items.skip(1).take(i - 1));
        assert(items.take(i + 1)[0] == items[0]);
        assert(items.take(i)[0] == items[0]);
        assert(items.skip(1)[i - 1] == items[i]);
        assert(spec_json_items(items.take(i + 1)) =~= spec_json_items(items.take(i)) + seq![',']
            + spec_json(items[i]));
    }
}

proof fn lemma_json_entries_snoc(entries: Seq<(Seq<char>, ValueV)>, i: int)
    requires
        1 <= i < entries.len(),
    ensures
        spec_json_entries(entries.take(i + 1)) == spec_json_entries(entries.take(i)) + seq![',']
            + spec_json_entry(entries[i]),
    decreases i,
{
    if i == 1 {
        assert(entries.take(2).skip(1) =~= seq![entries[1]]);
        assert(seq![entries[1]].len() == 1);
        assert(seq![entries[1]][0] == entries[1]);
        assert(entries.take(2).len() == 2);
        assert(entries.take(2)[0] == entries[0]);
        assert(entries.take(1).len() == 1);
        assert(entries.take(1)[0] == entries[0]);
        assert(spec_json_entries(entries.take(1)) == spec_json_entry(entries[0]));
        assert(spec_json_entries(seq![entries[1]]) == spec_json_entry(entries[1]));
        assert(spec_json_entries(entries.take(2)) =~= spec_json_entries(entries.take(1))
            + seq![','] + spec_json_entry(entries[1]));
    } else {
        lemma_json_entries_snoc(entries.skip(1), i - 1);
        assert(entries.take(i + 1).skip(1) =~= entries.skip(1).take(i));
        assert(entries.take(i).skip(1) =~= entries.skip(1).take(i - 1));
        assert(entries.take(i + 1)[0] == entries[0]);
        assert(entries.take(i)[0] == entries[0]);
        assert(entries.skip(1)[i - 1] == entries[i]);
        assert(spec_json_entries(entries.take(i + 1)) =~= spec_json_entries(entries.take(i))
            + seq![','] + spec_json_entry(entries[i]));
    }
}

/// Render a value as compact JSON text.
#[verifier::loop_isolation(false)]
pub fn json_text(v: &Value) -> (r: String)
    ensures
        r@ == spec_json(v@),
    decreases v,
{
    match v {
        Value::Null => "null".to_owned(),
        Value::Bool(b) => {
            if *b {
                "true".to_owned()
            } else {
                "false".to_owned()
            }
        },
        Value::Num(n) => crate::strutil::i64_to_string(*n),
        Value::Str(s) => {
            let mut out = String::new();
            crate::strutil::push_char(&mut out, '"');
            json_escape_into(s.as_str(), &mut out);
            crate::strutil::push_char(&mut out, '"');
            proof {
                assert(out@ =~= spec_json(v@));
            }
            out
        },
        Value::Arr(items) => {
            let ghost reps: Seq<ValueV> = arr_rep(items@);
            let mut out = String::new();
            crate::strutil::push_char(&mut out, '[');
            let mut i: usize = 0;
            proof {
                broadcast use lemma_arr_rep_len, lemma_arr_rep_index;

                assert(reps.take(0) =~= Seq::<ValueV>::empty());
            }
            while i < items.len()
                invariant
                    i <= items.len(),
                    reps == arr_rep(items@),
                    reps.len() == items@.len(),
                    forall|j: int| 0 <= j < items@.len() ==> reps[j] == value_rep(items@[j]),
                    out@ == seq!['['] + spec_json_items(reps.take(i as int)),
                decreases items.len() - i,
            {
                if i > 0 {
                    crate::strutil::push_char(&mut out, ',');
                }
                proof {
                    assert(decreases_to!(*v => v->Arr_0));
                    vstd::std_specs::vec::axiom_vec_index_decreases::<Value>(*items, i as int);
                    assert(decreases_to!(*v => items@[i as int]));
                }
                let piece = json_text(&items[i]);
                out.append(piece.as_str());
                proof {
                    if i == 0 {
                        assert(reps.take(1) =~= seq![reps[0]]);
                        assert(out@ =~= seq!['['] + spec_json_items(reps.take(1)));
                    } else {
                        lemma_json_items_snoc(reps, i as int);
                        assert(out@ =~= seq!['['] + spec_json_items(reps.take(i + 1)));
                    }
                }
                i += 1;
            }
            crate::strutil::push_char(&mut out, ']');
            proof {
                assert(reps.take(items@.len() as int) =~= reps);
                assert(out@ =~= spec_json(v@));
            }
            out
        },
        Value::Obj(entries) => {
            let ghost reps: Seq<(Seq<char>, ValueV)> = obj_rep(entries@);
            let mut out = String::new();
            crate::strutil::push_char(&mut out, '{');
            let mut i: usize = 0;
            proof {
                broadcast use lemma_obj_rep_len, lemma_obj_rep_index;

                assert(reps.take(0) =~= Seq::<(Seq<char>, ValueV)>::empty());
            }
            while i < entries.len()
                invariant
                    i <= entries.len(),
                    reps == obj_rep(entries@),
                    reps.len() == entries@.len(),
                    forall|j: int|
                        0 <= j < entries@.len() ==> reps[j] == (
                            entries@[j].key@,
                            value_rep(entries@[j].val),
                        ),
                    out@ == seq!['{'] + spec_json_entries(reps.take(i as int)),
                decreases entries.len() - i,
            {
                if i > 0 {
                    crate::strutil::push_char(&mut out, ',');
                }
                crate::strutil::push_char(&mut out, '"');
                json_escape_into(entries[i].key.as_str(), &mut out);
                crate::strutil::push_char(&mut out, '"');
                crate::strutil::push_char(&mut out, ':');
                proof {
                    assert(decreases_to!(*v => v->Obj_0));
                    vstd::std_specs::vec::axiom_vec_index_decreases::<ObjEntry>(
                        *entries,
                        i as int,
                    );
                    assert(decreases_to!(entries@[i as int] => entries@[i as int].val));
                    assert(decreases_to!(*v => entries@[i as int].val));
                }
                let piece = json_text(&entries[i].val);
                out.append(piece.as_str());
                proof {
                    if i == 0 {
                        assert(reps.take(1) =~= seq![reps[0]]);
                        assert(out@ =~= seq!['{'] + spec_json_entries(reps.take(1)));
                    } else {
                        lemma_json_entries_snoc(reps, i as int);
                        assert(out@ =~= seq!['{'] + spec_json_entries(reps.take(i + 1)));
                    }
                }
                i += 1;
            }
            crate::strutil::push_char(&mut out, '}');
            proof {
                assert(reps.take(entries@.len() as int) =~= reps);
                assert(out@ =~= spec_json(v@));
            }
            out
        },
    }
}

/// The text with every leading and trailing double quote removed.
pub open spec fn spec_trim_quotes(s: Seq<char>) -> Seq<char> {
    spec_trim_back(spec_trim_front(s))
}

pub open spec fn spec_trim_front(s: Seq<char>) -> Seq<char>
    decreases s.len(),
{
    if s.len() > 0 && s[0] == '"' {
        spec_trim_front(s.skip(1))
    } else {
        s
    }
}

pub open spec fn spec_trim_back(s: Seq<char>) -> Seq<char>
    decreases s.len(),
{
    if s.len() > 0 && s.last() == '"' {
        spec_trim_back(s.drop_last())
    } else {
        s
    }
}

/// The length of the run of double quotes at the front.
fn quote_run_front(s: &str) -> (a: usize)
    ensures
        a <= s@.len(),
        spec_trim_front(s@) == spec_trim_front(s@.skip(a as int)),
        a < s@.len() ==> s@[a as int] != '"',
{
    let n = s.unicode_len();
    let mut a: usize = 0;
    proof {
        assert(s@.skip(0) =~= s@);
    }
    while a < n
        invariant
            a <= n,
            n == s@.len(),
            spec_trim_front(s@) == spec_trim_front(s@.skip(a as int)),
        decreases n - a,
    {
        if s.get_char(a) != '"' {
            return a;
        }
        proof {
            assert(s@.skip(a as int).skip(1) =~= s@.skip(a + 1));
        }
        a += 1;
    }
    a
}

/// Where the run of double quotes at the back begins, not before `a`.
fn quote_run_back(s: &str, a: usize) -> (b: usize)
    requires
        a <= s@.len(),
    ensures
        a <= b <= s@.len(),
        spec_trim_back(s@.skip(a as int)) == spec_trim_back(s@.skip(a as int).take(b - a)),
        b > a ==> s@[b - 1] != '"',
{
    let n = s.unicode_len();
    let mut b: usize = n;
    proof {
        assert(s@.skip(a as int).take(n - a) =~= s@.skip(a as int));
    }
    while b > a
        invariant
            a <= b <= n,
            n == s@.len(),
            spec_trim_back(s@.skip(a as int)) == spec_trim_back(s@.skip(a as int).take(b - a)),
        decreases b,
    {
        if s.get_char(b - 1) != '"' {
            return b;
        }
        proof {
            assert(s@.skip(a as int).take(b - a).last() == s@[b - 1]);
            assert(s@.skip(a as int).take(b - a).drop_last() =~= s@.skip(a as int).take(
                b - 1 - a,
            ));
        }
        b -= 1;
    }
    b
}

/// Strip leading and trailing double quotes, as trimming a matched
/// character does.
pub fn trim_quotes(s: &str) -> (r: String)
    ensures
        r@ == spec_trim_quotes(s@),
{
    let n = s.unicode_len();
    let a = quote_run_front(s);
    let b = quote_run_back(s, a);
    let out = s.substring_char(a, b);
    proof {
        assert(s@.skip(a as int).take(b - a) =~= s@.subrange(a as int, b as int));
        if b > a {
            assert(s@.subrange(a as int, b as int).last() == s@[b - 1]);
            assert(spec_trim_back(s@.subrange(a as int, b as int)) == s@.subrange(
                a as int,
                b as int,
            ));
        } else {
            assert(s@.subrange(a as int, b as int) =~= Seq::<char>::empty());
        }
        if a >= n {
            assert(s@.skip(a as int) =~= Seq::<char>::empty());
        }
    }
    out.to_owned()
}

} // verus!
