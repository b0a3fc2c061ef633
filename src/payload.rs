//! Schema-flexible record payloads and their key-casing normalization.
use convert_case::{Case, Casing};
use vstd::prelude::*;

verus! {

/// serde_json's `Value`, carried through unread as the value of a payload
/// field.
#[verifier::external_type_specification]
#[verifier::external_body]
pub struct ExValue(serde_json::Value);

/// What convert_case produces for a key in camel case.
pub uninterp spec fn camel_of(s: Seq<char>) -> Seq<char>;

/// Relies on convert_case's `Casing::to_case` with `Case::Camel`: the result
/// depends on the characters of the key alone.
#[verifier::external_body]
fn to_camel_case(s: &String) -> (r: String)
    ensures
        r@ == camel_of(s@),
{
    s.to_case(Case::Camel)
}

/// One field of a payload: its name and its value.
pub struct Field {
    pub key: String,
    pub value: serde_json::Value,
}

/// A dynamic payload: fields in order, each name at most once.
pub struct Payload {
    pub fields: Vec<Field>,
}

/// Index of `key` among the names of `s`, or -1.
pub open spec fn key_index(s: Seq<(Seq<char>, serde_json::Value)>, key: Seq<char>) -> int
    decreases s.len(),
{
    if s.len() == 0 {
        -1
    } else if s.last().0 == key {
        s.len() - 1
    } else {
        key_index(s.drop_last(), key)
    }
}

/// Sets `key` to `value`: in place where the name is present, else at the end.
pub open spec fn put_field(
    s: Seq<(Seq<char>, serde_json::Value)>,
    key: Seq<char>,
    value: serde_json::Value,
) -> Seq<(Seq<char>, serde_json::Value)> {
    let i = key_index(s, key);
    if i >= 0 {
        s.update(i, (key, value))
    } else {
        s.push((key, value))
    }
}

/// The fields of `s` with every name turned to camel case; where two names
/// meet, the later value wins at the earlier position.
pub open spec fn camel_fields(s: Seq<(Seq<char>, serde_json::Value)>) -> Seq<(Seq<char>, serde_json::Value)>
    decreases s.len(),
{
    if s.len() == 0 {
        s
    } else {
        put_field(camel_fields(s.drop_last()), camel_of(s.last().0), s.last().1)
    }
}

pub open spec fn keys_unique(s: Seq<(Seq<char>, serde_json::Value)>) -> bool {
    forall|i: int, j: int| 0 <= i < j < s.len() ==> s[i].0 != s[j].0
}

impl Payload {
    pub open spec fn view(&self) -> Seq<(Seq<char>, serde_json::Value)> {
        self.fields@.map_values(|f: Field| (f.key@, f.value))
    }

    pub open spec fn wf(&self) -> bool {
        keys_unique(self@)
    }
}

proof fn lemma_key_index(s: Seq<(Seq<char>, serde_json::Value)>, key: Seq<char>)
    ensures
        -1 <= key_index(s, key) < s.len(),
        key_index(s, key) >= 0 ==> s[key_index(s, key)].0 == key,
        key_index(s, key) < 0 ==> forall|i: int| 0 <= i < s.len() ==> s[i].0 != key,
    decreases s.len(),
{
    if s.len() > 0 {
        lemma_key_index(s.drop_last(), key);
        let i = key_index(s.drop_last(), key);
        if i >= 0 {
            assert(s.drop_last()[i] == s[i]);
        }
        assert forall|j: int| 0 <= j < s.len() - 1 implies s[j] == s.drop_last()[j] by {}

    }
}

proof fn lemma_put_field_unique(
    s: Seq<(Seq<char>, serde_json::Value)>,
    key: Seq<char>,
    value: serde_json::Value,
)
    requires
        keys_unique(s),
    ensures
        keys_unique(put_field(s, key, value)),
{
    lemma_key_index(s, key);
}

/// Names of a payload's fields never repeat after normalization.
pub proof fn lemma_camel_fields_unique(s: Seq<(Seq<char>, serde_json::Value)>)
    ensures
        keys_unique(camel_fields(s)),
    decreases s.len(),
{
    if s.len() > 0 {
        lemma_camel_fields_unique(s.drop_last());
        lemma_put_field_unique(camel_fields(s.drop_last()), camel_of(s.last().0), s.last().1);
    }
}

/// Position of the field named `key` in `fields`, if any.
fn find_key(fields: &Vec<Field>, key: &String) -> (r: Option<usize>)
    ensures
        match r {
            Some(i) => i == key_index(fields@.map_values(|f: Field| (f.key@, f.value)), key@),
            None => key_index(fields@.map_values(|f: Field| (f.key@, f.value)), key@) == -1,
        },
{
    let ghost s = fields@.map_values(|f: Field| (f.key@, f.value));
    let mut i: usize = fields.len();
    assert(s.take(i as int) =~= s);
    while i > 0
        invariant
            i <= fields.len(),
            s == fields@.map_values(|f: Field| (f.key@, f.value)),
            key_index(s, key@) == key_index(s.take(i as int), key@),
        decreases i,
    {
        assert(s.take(i as int).drop_last() =~= s.take(i - 1));
        if fields[i - 1].key == *key {
            return Some(i - 1);
        }
        i = i - 1;
    }
    assert(s.take(0) =~= Seq::<(Seq<char>, serde_json::Value)>::empty());
    None
}

/// Turns every field name of `payload` to camel case, keeping the values.
pub fn keys_to_camel_case(payload: &mut Payload)
    ensures
        final(payload)@ == camel_fields(old(payload)@),
        final(payload).wf(),
{
    let ghost orig = payload@;
    let mut source: Vec<Field> = Vec::new();
    std::mem::swap(&mut source, &mut payload.fields);
    let mut out: Vec<Field> = Vec::new();
    let n: usize = source.len();
    let mut done: usize = 0;
    while source.len() > 0
        invariant
            done + source.len() == n,
            n == orig.len(),
            source@.map_values(|f: Field| (f.key@, f.value)) == orig.skip(done as int),
            out@.map_values(|f: Field| (f.key@, f.value)) == camel_fields(orig.take(done as int)),
        decreases source.len(),
    {
        let ghost before = out@.map_values(|f: Field| (f.key@, f.value));
        let ghost src_before = source@;
        let field = source.remove(0);
        assert(source@ =~= src_before.subrange(1, src_before.len() as int));
        assert(orig.take(done + 1).drop_last() =~= orig.take(done as int));
        assert(orig.skip(done as int)[0] == orig[done as int]);
        let key = to_camel_case(&field.key);
        let found = find_key(&out, &key);
        proof {
            lemma_key_index(before, key@);
        }
        match found {
            Some(j) => {
                out.set(j, Field { key, value: field.value });
            },
            None => {
                out.push(Field { key, value: field.value });
            },
        }
        proof {
            assert(out@.map_values(|f: Field| (f.key@, f.value)) =~= put_field(before, key@, orig[done as int].1));
        }
        assert(source@.map_values(|f: Field| (f.key@, f.value)) =~= src_before.map_values(
            |f: Field| (f.key@, f.value),
        ).subrange(1, src_before.len() as int));
        assert(source@.map_values(|f: Field| (f.key@, f.value)) =~= orig.skip(done + 1));
        done = done + 1;
    }
    assert(orig.take(n as int) =~= orig);
    payload.fields = out;
    proof {
        lemma_camel_fields_unique(orig);
    }
}

} // verus!
