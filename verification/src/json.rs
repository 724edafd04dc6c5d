//! Structured values: the payloads of tasks, the contexts of workflow runs and the
//! claims of tokens.
use vstd::prelude::*;
use vstd::string::StringExecFns;

verus! {

/// An arbitrary structured value. An object is a list of named members; where a name
/// occurs more than once, the last member of that name is the one that counts.
#[derive(Debug, PartialEq, Eq)]
pub enum JsonValue {
    Null,
    Bool(bool),
    /// An integer that fits 64 bits.
    Number(i64),
    /// Any other number, kept as its decimal text.
    Real(String),
    Text(String),
    Array(Vec<JsonValue>),
    Object(Vec<Member>),
}

/// A named member of an object.
#[derive(Debug, PartialEq, Eq)]
pub struct Member {
    pub name: String,
    pub value: JsonValue,
}

/// The mathematical value of a [`JsonValue`].
pub enum JsonModel {
    Null,
    Bool(bool),
    Number(int),
    Real(Seq<char>),
    Text(Seq<char>),
    Array(Seq<JsonModel>),
    Object(Seq<MemberModel>),
}

/// The mathematical value of a [`Member`].
pub struct MemberModel {
    pub name: Seq<char>,
    pub value: JsonModel,
}

impl DeepView for JsonValue {
    type V = JsonModel;

    open spec fn deep_view(&self) -> JsonModel
        decreases self,
    {
        match self {
            JsonValue::Null => JsonModel::Null,
            JsonValue::Bool(b) => JsonModel::Bool(*b),
            JsonValue::Number(n) => JsonModel::Number(*n as int),
            JsonValue::Real(digits) => JsonModel::Real(digits@),
            JsonValue::Text(s) => JsonModel::Text(s@),
            JsonValue::Array(items) => JsonModel::Array(
                Seq::new(
                    items@.len(),
                    |i: int|
                        if 0 <= i < items@.len() {
                            items@[i].deep_view()
                        } else {
                            JsonModel::Null
                        },
                ),
            ),
            JsonValue::Object(members) => JsonModel::Object(
                Seq::new(
                    members@.len(),
                    |i: int|
                        if 0 <= i < members@.len() {
                            MemberModel {
                                name: members@[i].name@,
                                value: members@[i].value.deep_view(),
                            }
                        } else {
                            MemberModel { name: Seq::empty(), value: JsonModel::Null }
                        },
                ),
            ),
        }
    }
}

/// The value of the last member called `key`, if there is one.
pub open spec fn last_member(members: Seq<MemberModel>, key: Seq<char>) -> Option<
    JsonModel,
>
    decreases members.len(),
{
    if members.len() == 0 {
        None
    } else if members.last().name == key {
        Some(members.last().value)
    } else {
        last_member(members.drop_last(), key)
    }
}

/// The member `key` of an object; `None` for a missing member and for anything that is
/// not an object.
pub open spec fn member(value: JsonModel, key: Seq<char>) -> Option<JsonModel> {
    match value {
        JsonModel::Object(members) => last_member(members, key),
        _ => None,
    }
}

/// The text of a text value; `None` for any other value.
pub open spec fn text_of(value: JsonModel) -> Option<Seq<char>> {
    match value {
        JsonModel::Text(s) => Some(s),
        _ => None,
    }
}

/// The text of the member `key`, where that member exists and is a text.
pub open spec fn member_text(value: JsonModel, key: Seq<char>) -> Option<Seq<char>> {
    match member(value, key) {
        Some(found) => text_of(found),
        None => None,
    }
}

/// Members that no index from `from` on calls `key` are found among the first `from`.
pub proof fn lemma_last_member_skips(
    members: Seq<MemberModel>,
    key: Seq<char>,
    from: int,
)
    requires
        0 <= from <= members.len(),
        forall|j: int| from <= j < members.len() ==> (#[trigger] members[j]).name != key,
    ensures
        last_member(members, key) == last_member(members.take(from), key),
    decreases members.len() - from,
{
    if from == members.len() {
        assert(members.take(from) =~= members);
    } else {
        let shorter = members.drop_last();
        lemma_last_member_skips(shorter, key, from);
        assert(shorter.take(from) =~= members.take(from));
    }
}

impl JsonValue {
    /// An object with the given members.
    pub fn object(members: Vec<Member>) -> (value: JsonValue)
        ensures
            value == JsonValue::Object(members),
    {
        JsonValue::Object(members)
    }

    /// A text value.
    pub fn text(s: &str) -> (value: JsonValue)
        ensures
            value.deep_view() == JsonModel::Text(s@),
    {
        JsonValue::Text(String::from_str(s))
    }

    /// The member `key` of an object.
    pub fn get(&self, key: &str) -> (found: Option<&JsonValue>)
        ensures
            found.deep_view() == member(self.deep_view(), key@),
    {
        match self {
            JsonValue::Object(members) => {
                let ghost all = self.deep_view()->Object_0;
                let mut i: usize = members.len();
                while i > 0
                    invariant
                        i <= members.len(),
                        self.deep_view() == JsonModel::Object(all),
                        all.len() == members@.len(),
                        forall|j: int|
                            0 <= j < members@.len() ==> all[j] == (MemberModel {
                                name: members@[j].name@,
                                value: members@[j].value.deep_view(),
                            }),
                        forall|j: int| i <= j < members@.len() ==> (#[trigger] all[j]).name != key@,
                    decreases i,
                {
                    i = i - 1;
                    if crate::text::same_text(members[i].name.as_str(), key) {
                        proof {
                            lemma_last_member_skips(all, key@, i + 1);
                            let upto = all.take(i + 1);
                            assert(upto.last() == all[i as int]);
                            assert(last_member(upto, key@) == Some(all[i as int].value));
                        }
                        return Some(&members[i].value);
                    }
                }
                proof {
                    lemma_last_member_skips(all, key@, 0);
                    assert(all.take(0).len() == 0);
                }
                None
            },
            _ => None,
        }
    }

    /// The text of a text value.
    pub fn as_str(&self) -> (text: Option<&str>)
        ensures
            text.deep_view() == text_of(self.deep_view()),
    {
        match self {
            JsonValue::Text(s) => Some(s.as_str()),
            _ => None,
        }
    }

    /// The integer of an integer value.
    pub fn as_i64(&self) -> (number: Option<i64>)
        ensures
            number matches Some(n) ==> self.deep_view() == JsonModel::Number(n as int),
            number is None ==> !(self.deep_view() is Number),
    {
        match self {
            JsonValue::Number(n) => Some(*n),
            _ => None,
        }
    }

    /// Whether this is the null value.
    pub fn is_null(&self) -> (null: bool)
        ensures
            null == (self.deep_view() is Null),
    {
        match self {
            JsonValue::Null => true,
            _ => false,
        }
    }
}

impl Clone for JsonValue {
    fn clone(&self) -> (copy: Self)
        ensures
            copy.deep_view() == self.deep_view(),
        decreases self,
    {
        match self {
            JsonValue::Null => JsonValue::Null,
            JsonValue::Bool(b) => JsonValue::Bool(*b),
            JsonValue::Number(n) => JsonValue::Number(*n),
            JsonValue::Real(digits) => JsonValue::Real(digits.clone()),
            JsonValue::Text(s) => JsonValue::Text(s.clone()),
            JsonValue::Array(items) => {
                let mut copy: Vec<JsonValue> = Vec::new();
                let mut i: usize = 0;
                while i < items.len()
                    invariant
                        i <= items.len(),
                        copy@.len() == i,
                        *self == JsonValue::Array(*items),
                        forall|j: int|
                            0 <= j < i ==> (#[trigger] copy@[j]).deep_view()
                                == items@[j].deep_view(),
                    decreases items.len() - i,
                {
                    proof {
                        vstd::std_specs::vec::axiom_vec_index_decreases(*items, i as int);
                        assert(decreases_to!(*self => self->Array_0));
                    }
                    copy.push(items[i].clone());
                    i = i + 1;
                }
                let out = JsonValue::Array(copy);
                assert(out.deep_view()->Array_0 =~= self.deep_view()->Array_0);
                out
            },
            JsonValue::Object(members) => {
                let mut copy: Vec<Member> = Vec::new();
                let mut i: usize = 0;
                while i < members.len()
                    invariant
                        i <= members.len(),
                        copy@.len() == i,
                        *self == JsonValue::Object(*members),
                        forall|j: int|
                            0 <= j < i ==> (#[trigger] copy@[j]).name@ == members@[j].name@
                                && copy@[j].value.deep_view() == members@[j].value.deep_view(),
                    decreases members.len() - i,
                {
                    proof {
                        vstd::std_specs::vec::axiom_vec_index_decreases(*members, i as int);
                        assert(decreases_to!(*self => self->Object_0));
                    }
                    copy.push(Member { name: members[i].name.clone(), value: members[i].value.clone() });
                    i = i + 1;
                }
                let out = JsonValue::Object(copy);
                assert(out.deep_view()->Object_0 =~= self.deep_view()->Object_0);
                out
            },
        }
    }
}

/// Copies an optional value.
pub fn clone_opt_json(value: &Option<JsonValue>) -> (copy: Option<JsonValue>)
    ensures
        copy.deep_view() == value.deep_view(),
{
    match value {
        Some(v) => Some(v.clone()),
        None => None,
    }
}

} // verus!
