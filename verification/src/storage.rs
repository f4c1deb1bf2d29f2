//! The per-scope value store: a mapping from field name to tagged value
//! with a reserved-name write policy.

use vstd::prelude::*;

use crate::text::{starts_with, str_eq, str_starts_with};
use crate::value::{as_str_repr, FieldInput, FieldValue, ValueRepr};

verus! {

broadcast use vstd::map::group_map_axioms, vstd::set::group_set_axioms;

/// The mapping described by a sequence of key/value entries, later
/// entries winning.
pub open spec fn map_of(entries: Seq<(String, FieldValue)>) -> Map<Seq<char>, ValueRepr>
    decreases entries.len(),
{
    if entries.len() == 0 {
        Map::empty()
    } else {
        map_of(entries.drop_last()).insert(entries.last().0@, entries.last().1@)
    }
}

/// The set of names that a sequence of name strings denotes.
pub open spec fn name_set(names: Seq<String>) -> Set<Seq<char>> {
    Set::new(|k: Seq<char>| exists|i: int| 0 <= i < names.len() && names[i]@ == k)
}

/// No two entries share a key.
pub open spec fn unique_keys(entries: Seq<(String, FieldValue)>) -> bool {
    forall|i: int, j: int| 0 <= i < j < entries.len() ==> entries[i].0@ != entries[j].0@
}

/// What one reserved-checked write leaves in a mapping: a write to a
/// reserved name is dropped, any other write inserts or replaces.
pub open spec fn recorded(
    m: Map<Seq<char>, ValueRepr>,
    reserved: Set<Seq<char>>,
    key: Seq<char>,
    value: ValueRepr,
) -> Map<Seq<char>, ValueRepr> {
    if reserved.contains(key) {
        m
    } else {
        m.insert(key, value)
    }
}

/// A write to a reserved name leaves the mapping unchanged.
pub proof fn lemma_reserved_write_dropped(
    m: Map<Seq<char>, ValueRepr>,
    reserved: Set<Seq<char>>,
    key: Seq<char>,
    value: ValueRepr,
)
    requires
        reserved.contains(key),
    ensures
        recorded(m, reserved, key, value) == m,
{
}

/// A key is in the mapping exactly when some entry carries it.
proof fn lemma_map_of_contains(entries: Seq<(String, FieldValue)>, k: Seq<char>)
    ensures
        map_of(entries).contains_key(k) <==> exists|i: int|
            0 <= i < entries.len() && entries[i].0@ == k,
    decreases entries.len(),
{
    if entries.len() == 0 {
    } else {
        let sub = entries.drop_last();
        let n = entries.len() as int;
        lemma_map_of_contains(sub, k);
        if entries.last().0@ == k {
            assert(entries[n - 1].0@ == k);
        } else if map_of(sub).contains_key(k) {
            let i = choose|i: int| 0 <= i < sub.len() && sub[i].0@ == k;
            assert(entries[i].0@ == k);
        } else {
            assert forall|i: int| 0 <= i < n implies entries[i].0@ != k by {
                if i < n - 1 {
                    assert(sub[i] == entries[i]);
                }
            }
        }
    }
}

/// With unique keys, the mapping sends each entry's key to its value.
proof fn lemma_map_of_get(entries: Seq<(String, FieldValue)>, i: int)
    requires
        unique_keys(entries),
        0 <= i < entries.len(),
    ensures
        map_of(entries).contains_key(entries[i].0@),
        map_of(entries)[entries[i].0@] == entries[i].1@,
    decreases entries.len(),
{
    let sub = entries.drop_last();
    let n = entries.len() as int;
    if i == n - 1 {
    } else {
        assert(unique_keys(sub)) by {
            assert forall|p: int, q: int| 0 <= p < q < sub.len() implies sub[p].0@ != sub[q].0@ by {
                assert(sub[p] == entries[p]);
                assert(sub[q] == entries[q]);
            }
        }
        lemma_map_of_get(sub, i);
        assert(sub[i] == entries[i]);
        assert(entries[i].0@ != entries[n - 1].0@);
    }
}

/// Removing an entry removes exactly its key from the mapping, and keeps
/// the remaining keys unique.
proof fn lemma_map_of_remove(entries: Seq<(String, FieldValue)>, i: int)
    requires
        unique_keys(entries),
        0 <= i < entries.len(),
    ensures
        map_of(entries.remove(i)) == map_of(entries).remove(entries[i].0@),
        unique_keys(entries.remove(i)),
        forall|j: int| 0 <= j < entries.remove(i).len() ==> entries.remove(i)[j].0@
            != entries[i].0@,
    decreases entries.len(),
{
    let n = entries.len() as int;
    let rest = entries.remove(i);
    let k = entries[i].0@;
    assert forall|p: int, q: int| 0 <= p < q < rest.len() implies rest[p].0@ != rest[q].0@ by {}
    assert forall|j: int| 0 <= j < rest.len() implies rest[j].0@ != k by {}
    if i == n - 1 {
        assert(rest =~= entries.drop_last());
        lemma_map_of_contains(entries.drop_last(), k);
        assert forall|j: int| 0 <= j < entries.drop_last().len()
            implies entries.drop_last()[j].0@ != k by {}
        assert(!map_of(entries.drop_last()).contains_key(k));
        assert(map_of(rest) =~= map_of(entries).remove(k));
    } else {
        let sub = entries.drop_last();
        assert(unique_keys(sub)) by {
            assert forall|p: int, q: int| 0 <= p < q < sub.len() implies sub[p].0@ != sub[q].0@ by {
                assert(sub[p] == entries[p]);
                assert(sub[q] == entries[q]);
            }
        }
        assert(sub[i] == entries[i]);
        lemma_map_of_remove(sub, i);
        assert(rest.drop_last() =~= sub.remove(i));
        assert(rest.last() == entries.last());
        assert(map_of(rest) == map_of(sub.remove(i)).insert(entries[n - 1].0@, entries[n - 1].1@));
        assert(entries[n - 1].0@ != k);
        assert(map_of(rest) =~= map_of(entries).remove(k));
    }
}

/// Appending an entry inserts its key into the mapping.
proof fn lemma_map_of_push(entries: Seq<(String, FieldValue)>, p: (String, FieldValue))
    ensures
        map_of(entries.push(p)) == map_of(entries).insert(p.0@, p.1@),
{
    assert(entries.push(p).drop_last() =~= entries);
    assert(entries.push(p).last() == p);
}

/// With unique keys the mapping has exactly one key per entry.
proof fn lemma_map_of_len(entries: Seq<(String, FieldValue)>)
    requires
        unique_keys(entries),
    ensures
        map_of(entries).dom().finite(),
        map_of(entries).len() == entries.len(),
    decreases entries.len(),
{
    if entries.len() == 0 {
        assert(map_of(entries).dom() =~= Set::<Seq<char>>::empty());
    } else {
        let sub = entries.drop_last();
        let n = entries.len() as int;
        assert(unique_keys(sub)) by {
            assert forall|p: int, q: int| 0 <= p < q < sub.len() implies sub[p].0@ != sub[q].0@ by {
                assert(sub[p] == entries[p]);
                assert(sub[q] == entries[q]);
            }
        }
        lemma_map_of_len(sub);
        lemma_map_of_contains(sub, entries[n - 1].0@);
        assert forall|j: int| 0 <= j < sub.len() implies sub[j].0@ != entries[n - 1].0@ by {
            assert(sub[j] == entries[j]);
        }
        assert(!map_of(sub).contains_key(entries[n - 1].0@));
        assert(map_of(entries).dom() =~= map_of(sub).dom().insert(entries[n - 1].0@));
        vstd::set::axiom_set_insert_finite(map_of(sub).dom(), entries[n - 1].0@);
        vstd::set::axiom_set_insert_len(map_of(sub).dom(), entries[n - 1].0@);
    }
}

/// Per-scope storage of named field values, with a set of reserved names
/// that ordinary writes may not touch.
#[derive(Debug)]
pub struct Storage {
    values: Vec<(String, FieldValue)>,
    reserved: Vec<String>,
}

impl Storage {
    /// The mapping from field name to recorded value.
    pub closed spec fn fields(&self) -> Map<Seq<char>, ValueRepr> {
        map_of(self.values@)
    }

    /// The names this store refuses to overwrite.
    pub closed spec fn reserved_set(&self) -> Set<Seq<char>> {
        name_set(self.reserved@)
    }

    /// Internal well-formedness: each field name is held at most once.
    pub closed spec fn wf(&self) -> bool {
        unique_keys(self.values@)
    }

    /// An empty store with no reserved names.
    pub fn new() -> (s: Storage)
        ensures
            s.wf(),
            s.fields() == Map::<Seq<char>, ValueRepr>::empty(),
            s.reserved_set() == Set::<Seq<char>>::empty(),
    {
        Self::default()
    }

    /// An empty store that refuses writes to the given names.
    pub fn with_reserved(reserved: Vec<String>) -> (s: Storage)
        ensures
            s.wf(),
            s.fields() == Map::<Seq<char>, ValueRepr>::empty(),
            s.reserved_set() == name_set(reserved@),
    {
        Storage { values: Vec::new(), reserved }
    }

    /// Whether a name belongs to the reserved set.
    pub fn is_reserved(&self, key: &str) -> (r: bool)
        ensures
            r == self.reserved_set().contains(key@),
    {
        let n = self.reserved.len();
        let mut i: usize = 0;
        while i < n
            invariant
                n == self.reserved@.len(),
                i <= n,
                forall|j: int| 0 <= j < i ==> self.reserved@[j]@ != key@,
            decreases n - i,
        {
            if str_eq(self.reserved[i].as_str(), key) {
                assert(self.reserved_set().contains(key@));
                return true;
            }
            i = i + 1;
        }
        assert(!self.reserved_set().contains(key@));
        false
    }

    /// The position of the entry holding a name, where there is one.
    fn find_index(&self, key: &str) -> (r: Option<usize>)
        ensures
            match r {
                Some(i) => i < self.values@.len() && self.values@[i as int].0@ == key@,
                None => forall|j: int| 0 <= j < self.values@.len() ==> self.values@[j].0@ != key@,
            },
    {
        let n = self.values.len();
        let mut i: usize = 0;
        while i < n
            invariant
                n == self.values@.len(),
                i <= n,
                forall|j: int| 0 <= j < i ==> self.values@[j].0@ != key@,
            decreases n - i,
        {
            if str_eq(self.values[i].0.as_str(), key) {
                return Some(i);
            }
            i = i + 1;
        }
        None
    }

    /// The value recorded under a name, where there is one.
    pub fn get(&self, key: &str) -> (r: Option<&FieldValue>)
        requires
            self.wf(),
        ensures
            match r {
                Some(v) => self.fields().contains_key(key@) && v@ == self.fields()[key@],
                None => !self.fields().contains_key(key@),
            },
    {
        proof {
            lemma_map_of_contains(self.values@, key@);
        }
        match self.find_index(key) {
            Some(i) => {
                proof {
                    lemma_map_of_get(self.values@, i as int);
                }
                Some(&self.values[i].1)
            }
            None => None,
        }
    }

    /// How many fields the store holds.
    pub fn len(&self) -> (n: usize)
        requires
            self.wf(),
        ensures
            n == self.fields().len(),
    {
        proof {
            lemma_map_of_len(self.values@);
        }
        self.values.len()
    }

    /// The recorded fields as name/value pairs, one per field, for a
    /// downstream consumer to walk.
    pub fn entries(&self) -> (r: &Vec<(String, FieldValue)>)
        requires
            self.wf(),
        ensures
            r@.len() == self.fields().len(),
            forall|i: int|
                0 <= i < r@.len() ==> #[trigger] self.fields().contains_key(r@[i].0@)
                    && self.fields()[r@[i].0@] == r@[i].1@,
            forall|k: Seq<char>| #[trigger] self.fields().contains_key(k) ==> exists|i: int|
                0 <= i < r@.len() && r@[i].0@ == k,
            forall|i: int, j: int| 0 <= i < j < r@.len() ==> r@[i].0@ != r@[j].0@,
    {
        proof {
            lemma_map_of_len(self.values@);
            assert forall|i: int|
                0 <= i < self.values@.len() implies #[trigger] self.fields().contains_key(
                self.values@[i].0@,
            ) && self.fields()[self.values@[i].0@] == self.values@[i].1@ by {
                lemma_map_of_get(self.values@, i);
            }
            assert forall|k: Seq<char>| #[trigger] self.fields().contains_key(k) implies exists|
                i: int,
            | 0 <= i < self.values@.len() && self.values@[i].0@ == k by {
                lemma_map_of_contains(self.values@, k);
            }
        }
        &self.values
    }

    /// Record a value under a name. A write to a reserved name is dropped;
    /// any other write inserts the entry or replaces the one already there.
    pub fn record_value(&mut self, key: &str, value: FieldValue)
        requires
            old(self).wf(),
        ensures
            final(self).wf(),
            final(self).reserved_set() == old(self).reserved_set(),
            final(self).fields() == recorded(
                old(self).fields(),
                old(self).reserved_set(),
                key@,
                value@,
            ),
    {
        if self.is_reserved(key) {
            // The write is dropped; emitting a diagnostic is the caller's
            // concern.
            return;
        }
        let ghost pre = self.values@;
        let owned_key: String = match self.find_index(key) {
            Some(i) => {
                proof {
                    lemma_map_of_remove(pre, i as int);
                    lemma_map_of_get(pre, i as int);
                }
                let entry = self.values.remove(i);
                entry.0
            }
            None => {
                proof {
                    lemma_map_of_contains(pre, key@);
                }
                key.to_owned()
            }
        };
        let ghost mid = self.values@;
        let ghost p = (owned_key, value);
        assert(owned_key@ == key@);
        assert(forall|j: int| 0 <= j < mid.len() ==> mid[j].0@ != key@);
        self.values.push((owned_key, value));
        proof {
            lemma_map_of_push(mid, p);
            assert(map_of(self.values@) =~= map_of(pre).insert(key@, value@));
            assert forall|p: int, q: int|
                0 <= p < q < self.values@.len() implies self.values@[p].0@
                != self.values@[q].0@ by {
                if q == self.values@.len() - 1 {
                    assert(self.values@[p] == mid[p]);
                } else {
                    assert(self.values@[p] == mid[p]);
                    assert(self.values@[q] == mid[q]);
                }
            }
        }
    }
}

/// What a debug-visitor write leaves in a mapping. A name with the
/// library-internal marker `log.` is dropped; a raw-identifier escape `r#`
/// is stripped from the name; anything else is written as it stands. The
/// write itself goes through the reserved-name check.
pub open spec fn debug_recorded(
    m: Map<Seq<char>, ValueRepr>,
    reserved: Set<Seq<char>>,
    key: Seq<char>,
    rendered: Seq<char>,
) -> Map<Seq<char>, ValueRepr> {
    if starts_with(key, "log."@) {
        m
    } else if starts_with(key, "r#"@) {
        recorded(m, reserved, key.skip(2), ValueRepr::Str(rendered))
    } else {
        recorded(m, reserved, key, ValueRepr::Str(rendered))
    }
}

/// The `action` field derived from a tag: the outgoing-call sentinel is
/// replaced by its display name, any other tag stands verbatim.
pub open spec fn action_value(tag: Seq<char>) -> Seq<char> {
    if tag == "OUTGOING_API_CALL"@ {
        "outgoingApiTag"@
    } else {
        tag
    }
}

/// The `category` field derived from a mapping: the string already stored
/// under `category`, or the literal `null` where there is none.
pub open spec fn category_value(m: Map<Seq<char>, ValueRepr>) -> Seq<char> {
    if m.contains_key("category"@) {
        match as_str_repr(m["category"@]) {
            Some(s) => s,
            None => "null"@,
        }
    } else {
        "null"@
    }
}

/// Where no `category` field is stored, the derived category is `null`.
pub proof fn lemma_category_defaults_to_null(m: Map<Seq<char>, ValueRepr>)
    requires
        !m.contains_key("category"@),
    ensures
        category_value(m) == "null"@,
{
}

/// A name with the internal marker is never written by the debug visitor.
pub proof fn lemma_internal_marker_dropped(
    m: Map<Seq<char>, ValueRepr>,
    reserved: Set<Seq<char>>,
    key: Seq<char>,
    rendered: Seq<char>,
)
    requires
        starts_with(key, "log."@),
    ensures
        debug_recorded(m, reserved, key, rendered) == m,
{
}

/// A field written by the debug visitor under a raw-identifier-escaped
/// name is visible under the unescaped name.
pub proof fn lemma_raw_identifier_unescaped(
    m: Map<Seq<char>, ValueRepr>,
    reserved: Set<Seq<char>>,
    key: Seq<char>,
    rendered: Seq<char>,
)
    requires
        starts_with(key, "r#"@),
        !reserved.contains(key.skip(2)),
    ensures
        debug_recorded(m, reserved, key, rendered).contains_key(key.skip(2)),
        debug_recorded(m, reserved, key, rendered)[key.skip(2)] == ValueRepr::Str(rendered),
{
    reveal_strlit("r#");
    reveal_strlit("log.");
    assert("r#"@.len() == 2 && "r#"@[0] == 'r');
    assert("log."@.len() == 4 && "log."@[0] == 'l');
    assert(key.subrange(0, 2)[0] == key[0]);
    assert(key[0] == 'r');
    assert(!starts_with(key, "log."@)) by {
        if starts_with(key, "log."@) {
            assert(key.subrange(0, 4)[0] == key[0]);
        }
    }
}

impl Storage {
    /// Record a signed integer under a name, through the reserved check.
    pub fn record_i64(&mut self, key: &str, value: i64)
        requires
            old(self).wf(),
        ensures
            final(self).wf(),
            final(self).reserved_set() == old(self).reserved_set(),
            final(self).fields() == recorded(
                old(self).fields(),
                old(self).reserved_set(),
                key@,
                ValueRepr::I64(value),
            ),
    {
        self.record_value(key, FieldValue::I64(value));
    }

    /// Record an unsigned integer under a name, through the reserved check.
    pub fn record_u64(&mut self, key: &str, value: u64)
        requires
            old(self).wf(),
        ensures
            final(self).wf(),
            final(self).reserved_set() == old(self).reserved_set(),
            final(self).fields() == recorded(
                old(self).fields(),
                old(self).reserved_set(),
                key@,
                ValueRepr::U64(value),
            ),
    {
        self.record_value(key, FieldValue::U64(value));
    }

    /// Record a floating-point value, given as the bit pattern an
    /// `f64::to_bits` call produces, through the reserved check.
    pub fn record_f64(&mut self, key: &str, value_bits: u64)
        requires
            old(self).wf(),
        ensures
            final(self).wf(),
            final(self).reserved_set() == old(self).reserved_set(),
            final(self).fields() == recorded(
                old(self).fields(),
                old(self).reserved_set(),
                key@,
                ValueRepr::F64Bits(value_bits),
            ),
    {
        self.record_value(key, FieldValue::F64Bits(value_bits));
    }

    /// Record a boolean under a name, through the reserved check.
    pub fn record_bool(&mut self, key: &str, value: bool)
        requires
            old(self).wf(),
        ensures
            final(self).wf(),
            final(self).reserved_set() == old(self).reserved_set(),
            final(self).fields() == recorded(
                old(self).fields(),
                old(self).reserved_set(),
                key@,
                ValueRepr::Bool(value),
            ),
    {
        self.record_value(key, FieldValue::Bool(value));
    }

    /// Record a string under a name, through the reserved check.
    pub fn record_str(&mut self, key: &str, value: &str)
        requires
            old(self).wf(),
        ensures
            final(self).wf(),
            final(self).reserved_set() == old(self).reserved_set(),
            final(self).fields() == recorded(
                old(self).fields(),
                old(self).reserved_set(),
                key@,
                ValueRepr::Str(value@),
            ),
    {
        self.record_value(key, FieldValue::Str(value.to_owned()));
    }

    /// Record a debug-rendered value under a name, normalizing the name:
    /// names with the internal `log.` marker are dropped (they are handled
    /// elsewhere upstream), a leading raw-identifier escape `r#` is
    /// stripped, and any other name is stored as it stands.
    pub fn record_debug(&mut self, key: &str, rendered: String)
        requires
            old(self).wf(),
        ensures
            final(self).wf(),
            final(self).reserved_set() == old(self).reserved_set(),
            final(self).fields() == debug_recorded(
                old(self).fields(),
                old(self).reserved_set(),
                key@,
                rendered@,
            ),
    {
        if str_starts_with(key, "log.") {
            // Already handled upstream; dropped here.
            return;
        }
        if str_starts_with(key, "r#") {
            proof {
                reveal_strlit("r#");
            }
            let stripped = key.substring_char(2, key.unicode_len());
            proof {
                assert(stripped@ =~= key@.skip(2));
            }
            self.record_value(stripped, FieldValue::Str(rendered));
        } else {
            self.record_value(key, FieldValue::Str(rendered));
        }
    }

    /// Derive the `action` and `category` fields from a tag and the store's
    /// current contents, and write both through the reserved check.
    pub fn record_action_and_category(&mut self, tag: &str)
        requires
            old(self).wf(),
        ensures
            final(self).wf(),
            final(self).reserved_set() == old(self).reserved_set(),
            final(self).fields() == recorded(
                recorded(
                    old(self).fields(),
                    old(self).reserved_set(),
                    "action"@,
                    ValueRepr::Str(action_value(tag@)),
                ),
                old(self).reserved_set(),
                "category"@,
                ValueRepr::Str(category_value(old(self).fields())),
            ),
    {
        let action: String = if str_eq(tag, "OUTGOING_API_CALL") {
            "outgoingApiTag".to_owned()
        } else {
            tag.to_owned()
        };
        let category: String = match self.get("category") {
            Some(v) => match v {
                FieldValue::Str(s) => s.clone(),
                _ => "null".to_owned(),
            },
            None => "null".to_owned(),
        };
        self.record_value("action", FieldValue::Str(action));
        self.record_value("category", FieldValue::Str(category));
    }

    /// Write the fixed batch of additional fields, each through the
    /// reserved check.
    pub fn record_additional_values(&mut self)
        requires
            old(self).wf(),
        ensures
            final(self).wf(),
            final(self).reserved_set() == old(self).reserved_set(),
            final(self).fields() == recorded(
                recorded(
                    recorded(
                        recorded(
                            old(self).fields(),
                            old(self).reserved_set(),
                            "message_number"@,
                            ValueRepr::Str("1"@),
                        ),
                        old(self).reserved_set(),
                        "latency"@,
                        ValueRepr::I64(123),
                    ),
                    old(self).reserved_set(),
                    "is_art_enabled"@,
                    ValueRepr::Bool(true),
                ),
                old(self).reserved_set(),
                "error_code"@,
                ValueRepr::Str("ERR123"@),
            ),
    {
        self.record_value("message_number", FieldValue::Str("1".to_owned()));
        self.record_value("latency", FieldValue::I64(123));
        self.record_value("is_art_enabled", FieldValue::Bool(true));
        self.record_value("error_code", FieldValue::Str("ERR123".to_owned()));
    }
}

/// What one visitor input leaves in a mapping, by its kind.
pub open spec fn applied_one(
    m: Map<Seq<char>, ValueRepr>,
    reserved: Set<Seq<char>>,
    key: Seq<char>,
    input: FieldInput,
) -> Map<Seq<char>, ValueRepr> {
    match input {
        FieldInput::I64(v) => recorded(m, reserved, key, ValueRepr::I64(v)),
        FieldInput::U64(v) => recorded(m, reserved, key, ValueRepr::U64(v)),
        FieldInput::F64Bits(v) => recorded(m, reserved, key, ValueRepr::F64Bits(v)),
        FieldInput::Bool(v) => recorded(m, reserved, key, ValueRepr::Bool(v)),
        FieldInput::Str(s) => recorded(m, reserved, key, ValueRepr::Str(s@)),
        FieldInput::Debug(s) => debug_recorded(m, reserved, key, s@),
    }
}

/// What a batch of visitor inputs leaves in a mapping, applied in order.
pub open spec fn applied(
    m: Map<Seq<char>, ValueRepr>,
    reserved: Set<Seq<char>>,
    fields: Seq<(String, FieldInput)>,
) -> Map<Seq<char>, ValueRepr>
    decreases fields.len(),
{
    if fields.len() == 0 {
        m
    } else {
        applied(
            applied_one(m, reserved, fields.first().0@, fields.first().1),
            reserved,
            fields.drop_first(),
        )
    }
}

impl Storage {
    /// Apply one visitor input to the store, dispatching on its kind.
    pub fn record_input(&mut self, key: &str, input: &FieldInput)
        requires
            old(self).wf(),
        ensures
            final(self).wf(),
            final(self).reserved_set() == old(self).reserved_set(),
            final(self).fields() == applied_one(
                old(self).fields(),
                old(self).reserved_set(),
                key@,
                *input,
            ),
    {
        match input {
            FieldInput::I64(v) => self.record_i64(key, *v),
            FieldInput::U64(v) => self.record_u64(key, *v),
            FieldInput::F64Bits(v) => self.record_f64(key, *v),
            FieldInput::Bool(v) => self.record_bool(key, *v),
            FieldInput::Str(s) => self.record_str(key, s.as_str()),
            FieldInput::Debug(s) => self.record_debug(key, s.clone()),
        }
    }

    /// Apply a batch of visitor inputs to the store, in order.
    pub fn record_batch(&mut self, fields: &Vec<(String, FieldInput)>)
        requires
            old(self).wf(),
        ensures
            final(self).wf(),
            final(self).reserved_set() == old(self).reserved_set(),
            final(self).fields() == applied(
                old(self).fields(),
                old(self).reserved_set(),
                fields@,
            ),
    {
        let n = fields.len();
        let mut i: usize = 0;
        proof {
            assert(fields@.skip(0) =~= fields@);
        }
        while i < n
            invariant
                n == fields@.len(),
                i <= n,
                self.wf(),
                self.reserved_set() == old(self).reserved_set(),
                applied(self.fields(), self.reserved_set(), fields@.skip(i as int)) == applied(
                    old(self).fields(),
                    old(self).reserved_set(),
                    fields@,
                ),
            decreases n - i,
        {
            let ghost rest = fields@.skip(i as int);
            let entry = &fields[i];
            proof {
                assert(rest.first() == fields@[i as int]);
                assert(rest.drop_first() =~= fields@.skip(i as int + 1));
            }
            self.record_input(entry.0.as_str(), &entry.1);
            i = i + 1;
        }
        proof {
            assert(fields@.skip(n as int) =~= Seq::<(String, FieldInput)>::empty());
        }
    }
}

impl Clone for Storage {
    /// A value copy: the clone holds the same fields and the same reserved
    /// names, and later writes to either store never show in the other.
    fn clone(&self) -> (res: Self)
        ensures
            res.fields() == self.fields(),
            res.reserved_set() == self.reserved_set(),
            res.wf() == self.wf(),
    {
        let mut values: Vec<(String, FieldValue)> = Vec::new();
        let n = self.values.len();
        let mut i: usize = 0;
        while i < n
            invariant
                n == self.values@.len(),
                i <= n,
                values@.len() == i,
                forall|j: int| 0 <= j < i ==> values@[j] == self.values@[j],
            decreases n - i,
        {
            let entry = &self.values[i];
            values.push((entry.0.clone(), entry.1.clone()));
            i = i + 1;
        }
        let reserved = self.reserved.clone();
        proof {
            assert(values@ =~= self.values@);
            assert(reserved@ =~= self.reserved@);
        }
        Storage { values, reserved }
    }
}

impl Default for Storage {
    /// An empty store with no reserved names.
    fn default() -> (s: Storage)
        ensures
            s.wf(),
            s.fields() == Map::<Seq<char>, ValueRepr>::empty(),
            s.reserved_set() == Set::<Seq<char>>::empty(),
    {
        let s = Storage { values: Vec::new(), reserved: Vec::new() };
        proof {
            assert(s.reserved_set() =~= Set::<Seq<char>>::empty());
        }
        s
    }
}

} // verus!
