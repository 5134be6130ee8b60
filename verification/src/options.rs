//! Configuration options: what a plugin declares, and what the host assigns.

use crate::json::{find_member, lemma_object_view, lookup, members_view, Json, JsonModel};
use vstd::prelude::*;

verus! {

/// A typed value: a string, an integer or a truth value.
#[derive(Debug, PartialEq)]
pub enum TypedValue {
    String(String),
    Integer(i64),
    Boolean(bool),
}

/// The model of a [`TypedValue`].
pub enum ValueModel {
    String(Seq<char>),
    Integer(i64),
    Boolean(bool),
}

impl View for TypedValue {
    type V = ValueModel;

    open spec fn view(&self) -> ValueModel {
        match self {
            TypedValue::String(s) => ValueModel::String(s@),
            TypedValue::Integer(i) => ValueModel::Integer(*i),
            TypedValue::Boolean(b) => ValueModel::Boolean(*b),
        }
    }
}

impl Clone for TypedValue {
    fn clone(&self) -> (copy: TypedValue)
        ensures
            copy == *self,
    {
        match self {
            TypedValue::String(s) => TypedValue::String(s.clone()),
            TypedValue::Integer(i) => TypedValue::Integer(*i),
            TypedValue::Boolean(b) => TypedValue::Boolean(*b),
        }
    }
}

impl ValueModel {
    /// Both are strings, both integers or both truth values.
    pub open spec fn same_kind(self, other: ValueModel) -> bool {
        match (self, other) {
            (ValueModel::String(_), ValueModel::String(_)) => true,
            (ValueModel::Integer(_), ValueModel::Integer(_)) => true,
            (ValueModel::Boolean(_), ValueModel::Boolean(_)) => true,
            _ => false,
        }
    }

    /// The name under which the manifest announces the kind.
    pub open spec fn kind(self) -> Seq<char> {
        match self {
            ValueModel::String(_) => "string"@,
            ValueModel::Integer(_) => "int"@,
            ValueModel::Boolean(_) => "bool"@,
        }
    }

    /// The JSON scalar that stands for the value on the wire.
    pub open spec fn to_json(self) -> JsonModel {
        match self {
            ValueModel::String(s) => JsonModel::String(s),
            ValueModel::Integer(i) => JsonModel::Integer(i as int),
            ValueModel::Boolean(b) => JsonModel::Bool(b),
        }
    }
}

/// A raw value fits a default where both are strings, or the default is an
/// integer and the raw value an integer that an `i64` holds, or both are truth
/// values.
pub open spec fn compatible(default: ValueModel, raw: JsonModel) -> bool {
    match (default, raw) {
        (ValueModel::String(_), JsonModel::String(_)) => true,
        (ValueModel::Integer(_), JsonModel::Integer(i)) => i64::MIN <= i <= i64::MAX,
        (ValueModel::Boolean(_), JsonModel::Bool(_)) => true,
        _ => false,
    }
}

/// The typed value that a raw value becomes under a default, where it fits.
pub open spec fn coerce_spec(default: ValueModel, raw: JsonModel) -> Option<ValueModel> {
    match (default, raw) {
        (ValueModel::String(_), JsonModel::String(s)) => Some(ValueModel::String(s)),
        (ValueModel::Integer(_), JsonModel::Integer(i)) => if i64::MIN <= i <= i64::MAX {
            Some(ValueModel::Integer(i as i64))
        } else {
            None
        },
        (ValueModel::Boolean(_), JsonModel::Bool(b)) => Some(ValueModel::Boolean(b)),
        _ => None,
    }
}

/// A raw value of the kind that an option declares is taken as it is: the
/// coercion succeeds, the typed value is of the default's kind, and written
/// back as JSON it is the raw value again.
pub proof fn lemma_coerce_compatible(default: ValueModel, raw: JsonModel)
    requires
        compatible(default, raw),
    ensures
        coerce_spec(default, raw) is Some,
        coerce_spec(default, raw)->0.same_kind(default),
        coerce_spec(default, raw)->0.to_json() == raw,
{
}

/// A raw value of any other kind is refused.
pub proof fn lemma_coerce_incompatible(default: ValueModel, raw: JsonModel)
    requires
        !compatible(default, raw),
    ensures
        coerce_spec(default, raw) is None,
{
}

/// A typed value of the default's kind, sent as JSON, comes back as itself.
pub proof fn lemma_coerce_own_json(default: ValueModel, value: ValueModel)
    requires
        value.same_kind(default),
    ensures
        coerce_spec(default, value.to_json()) == Some(value),
{
}

/// The value that the host sent for an option is not of the kind that the
/// option declares.
#[derive(Debug, PartialEq)]
pub struct TypeMismatch {
    /// The option that the value was meant for.
    pub option: String,
}

/// A named option with its default and, once the host has sent one, its value.
#[derive(Debug, PartialEq)]
pub struct ConfigOption {
    name: String,
    default: TypedValue,
    value: Option<TypedValue>,
}

/// The model of a [`ConfigOption`].
pub struct OptionModel {
    pub name: Seq<char>,
    pub default: ValueModel,
    pub value: Option<ValueModel>,
}

impl OptionModel {
    /// A value, once assigned, is of the default's kind.
    pub open spec fn wf(self) -> bool {
        self.value matches Some(v) ==> v.same_kind(self.default)
    }

    /// What the manifest says of the option: its name, the name of its kind
    /// and its default. The assigned value is no part of it.
    pub open spec fn manifest_entry(self) -> JsonModel {
        JsonModel::Object(
            seq![
                ("name"@, JsonModel::String(self.name)),
                ("type"@, JsonModel::String(self.default.kind())),
                ("default"@, self.default.to_json()),
            ],
        )
    }

    /// The option as it was declared: without a value.
    pub open spec fn declaration(self) -> OptionModel {
        OptionModel { name: self.name, default: self.default, value: None }
    }
}

impl View for ConfigOption {
    type V = OptionModel;

    closed spec fn view(&self) -> OptionModel {
        OptionModel {
            name: self.name@,
            default: self.default@,
            value: match self.value {
                Some(v) => Some(v@),
                None => None,
            },
        }
    }
}

impl Clone for ConfigOption {
    fn clone(&self) -> (copy: ConfigOption)
        ensures
            copy == *self,
    {
        proof {
            use_type_invariant(self);
        }
        ConfigOption {
            name: self.name.clone(),
            default: self.default.clone(),
            value: match &self.value {
                Some(v) => Some(v.clone()),
                None => None,
            },
        }
    }
}

/// Declares an option: a name and the default that fixes its kind. No value is
/// assigned yet.
pub fn declare(name: &str, default: TypedValue) -> (option: ConfigOption)
    ensures
        option@ == (OptionModel { name: name@, default: default@, value: None }),
        option@.wf(),
{
    ConfigOption { name: name.to_owned(), default, value: None }
}

/// Maps a raw JSON value onto the kind that the option declares: a string for
/// a string, an integer that an `i64` holds for an integer, a truth value for a
/// truth value. Every other pairing is a mismatch. The option is not changed.
pub fn coerce(option: &ConfigOption, raw: &Json) -> (typed: Result<TypedValue, TypeMismatch>)
    ensures
        match typed {
            Ok(value) => coerce_spec(option@.default, raw@) == Some(value@),
            Err(mismatch) => coerce_spec(option@.default, raw@) is None && mismatch.option@
                == option@.name,
        },
{
    match (&option.default, raw) {
        (TypedValue::String(_), Json::String(s)) => Ok(TypedValue::String(s.clone())),
        (TypedValue::Integer(_), Json::Unsigned(u)) => if *u <= 0x7fff_ffff_ffff_ffffu64 {
            Ok(TypedValue::Integer(*u as i64))
        } else {
            Err(TypeMismatch { option: option.name.clone() })
        },
        (TypedValue::Integer(_), Json::Signed(i)) => Ok(TypedValue::Integer(*i)),
        (TypedValue::Boolean(_), Json::Bool(b)) => Ok(TypedValue::Boolean(*b)),
        _ => Err(TypeMismatch { option: option.name.clone() }),
    }
}

impl ConfigOption {
    #[verifier::type_invariant]
    spec fn valid(self) -> bool {
        self@.wf()
    }

    /// The option's name.
    pub fn name(&self) -> (name: &String)
        ensures
            name@ == self@.name,
    {
        &self.name
    }

    /// The default, which also fixes the option's kind.
    pub fn default(&self) -> (default: &TypedValue)
        ensures
            default@ == self@.default,
    {
        &self.default
    }

    /// The assigned value, if the host has sent one. It is of the default's
    /// kind.
    pub fn value(&self) -> (value: Option<&TypedValue>)
        ensures
            match value {
                Some(v) => self@.value == Some(v@),
                None => self@.value is None,
            },
            self@.wf(),
    {
        proof {
            use_type_invariant(self);
        }
        match &self.value {
            Some(v) => Some(v),
            None => None,
        }
    }

    /// Assigns the value that the host sent, coerced to the option's kind. On
    /// a mismatch the option is left exactly as it was.
    pub fn assign(&mut self, raw: &Json) -> (done: Result<(), TypeMismatch>)
        ensures
            match done {
                Ok(()) => coerce_spec(old(self)@.default, raw@) is Some && final(self)@ == (
                OptionModel { value: coerce_spec(old(self)@.default, raw@), ..old(self)@ }),
                Err(mismatch) => coerce_spec(old(self)@.default, raw@) is None && *final(self)
                    == *old(self) && mismatch.option@ == old(self)@.name,
            },
            final(self)@.wf(),
    {
        proof {
            use_type_invariant(&*self);
        }
        match coerce(self, raw) {
            Ok(value) => {
                self.value = Some(value);
                Ok(())
            },
            Err(mismatch) => Err(mismatch),
        }
    }

    /// The option's entry in the manifest.
    pub fn manifest_entry(&self) -> (entry: Json)
        ensures
            entry@ == self@.manifest_entry(),
    {
        let kind: &str = match &self.default {
            TypedValue::String(_) => "string",
            TypedValue::Integer(_) => "int",
            TypedValue::Boolean(_) => "bool",
        };
        let default: Json = match &self.default {
            TypedValue::String(s) => Json::String(s.clone()),
            TypedValue::Integer(i) => Json::Signed(*i),
            TypedValue::Boolean(b) => Json::Bool(*b),
        };
        let members: Vec<(String, Json)> = vec![
            ("name".to_owned(), Json::String(self.name.clone())),
            ("type".to_owned(), Json::String(kind.to_owned())),
            ("default".to_owned(), default),
        ];
        proof {
            lemma_object_view(members);
            assert(members_view(members@) =~= self@.manifest_entry()->Object_0);
        }
        Json::Object(members)
    }
}

/// The options of a list, each by its model.
pub open spec fn options_view(options: Seq<ConfigOption>) -> Seq<OptionModel> {
    Seq::new(options.len(), |i: int| options[i]@)
}

/// No two options of the list bear the same name.
pub open spec fn distinct_names(options: Seq<OptionModel>) -> bool {
    forall|i: int, j: int|
        0 <= i < options.len() && 0 <= j < options.len() && i != j ==> (#[trigger] options[i]).name
            != (#[trigger] options[j]).name
}

/// An option of the list bears the name.
pub open spec fn declares(options: Seq<OptionModel>, name: Seq<char>) -> bool {
    exists|i: int| 0 <= i < options.len() && (#[trigger] options[i]).name == name
}

/// The options as they were declared: each without a value.
pub open spec fn declarations(options: Seq<OptionModel>) -> Seq<OptionModel> {
    Seq::new(options.len(), |i: int| options[i].declaration())
}

/// The option after the host has supplied values by name: unchanged where
/// none was sent for it, holding the coerced value where one was, and `None`
/// where the value sent is not of its kind.
pub open spec fn assigned(option: OptionModel, supplied: Seq<(Seq<char>, JsonModel)>) -> Option<
    OptionModel,
> {
    match lookup(supplied, option.name) {
        None => Some(option),
        Some(raw) => match coerce_spec(option.default, raw) {
            Some(value) => Some(OptionModel { value: Some(value), ..option }),
            None => None,
        },
    }
}

/// `at` is the first option for which a value of the wrong kind was sent.
pub open spec fn is_first_mismatch(
    options: Seq<OptionModel>,
    supplied: Seq<(Seq<char>, JsonModel)>,
    at: int,
) -> bool {
    &&& 0 <= at < options.len()
    &&& assigned(options[at], supplied) is None
    &&& forall|i: int| 0 <= i < at ==> assigned(#[trigger] options[i], supplied) is Some
}

/// The first option, in the order of registration, for which a value of the
/// wrong kind was sent.
pub open spec fn first_mismatch(
    options: Seq<OptionModel>,
    supplied: Seq<(Seq<char>, JsonModel)>,
) -> Option<int> {
    if exists|at: int| is_first_mismatch(options, supplied, at) {
        Some(choose|at: int| is_first_mismatch(options, supplied, at))
    } else {
        None
    }
}

/// What `init` makes of the registered options: every option for which a
/// value was sent holds it, coerced, and the others are as before; or, where a
/// value of the wrong kind was sent, the name of the first option that it was
/// sent for.
pub open spec fn init_spec(
    options: Seq<OptionModel>,
    supplied: Seq<(Seq<char>, JsonModel)>,
) -> Result<Seq<OptionModel>, Seq<char>> {
    match first_mismatch(options, supplied) {
        Some(at) => Err(options[at].name),
        None => Ok(Seq::new(options.len(), |i: int| assigned(options[i], supplied)->0)),
    }
}

/// There is one first mismatch at most.
pub proof fn lemma_first_mismatch(
    options: Seq<OptionModel>,
    supplied: Seq<(Seq<char>, JsonModel)>,
    at: int,
)
    requires
        is_first_mismatch(options, supplied, at),
    ensures
        first_mismatch(options, supplied) == Some(at),
{
    let chosen = choose|at: int| is_first_mismatch(options, supplied, at);
    if chosen < at {
        assert(assigned(options[chosen], supplied) is Some);
    } else if at < chosen {
        assert(assigned(options[at], supplied) is Some);
    }
}

/// Where every value sent is of the right kind there is no first mismatch.
pub proof fn lemma_no_mismatch(options: Seq<OptionModel>, supplied: Seq<(Seq<char>, JsonModel)>)
    requires
        forall|i: int| 0 <= i < options.len() ==> assigned(#[trigger] options[i], supplied) is Some,
    ensures
        first_mismatch(options, supplied) is None,
{
}

/// Whatever the host sends, `init` leaves the declarations as they were: the
/// names, the defaults and their order.
pub proof fn lemma_init_keeps_declarations(
    options: Seq<OptionModel>,
    supplied: Seq<(Seq<char>, JsonModel)>,
)
    ensures
        init_spec(options, supplied) matches Ok(after) ==> declarations(after) == declarations(
            options,
        ),
{
    if let Ok(after) = init_spec(options, supplied) {
        assert forall|i: int| 0 <= i < options.len() implies (#[trigger] after[i]).declaration()
            == options[i].declaration() by {
            if assigned(options[i], supplied) is None {
                assert(exists|at: int| is_first_mismatch(options, supplied, at)) by {
                    lemma_some_mismatch_has_first(options, supplied, i);
                }
            }
        }
        assert(declarations(after) =~= declarations(options));
    }
}

/// Where some value sent is of the wrong kind, one of them is the first.
pub proof fn lemma_some_mismatch_has_first(
    options: Seq<OptionModel>,
    supplied: Seq<(Seq<char>, JsonModel)>,
    at: int,
)
    requires
        0 <= at < options.len(),
        assigned(options[at], supplied) is None,
    ensures
        exists|first: int| is_first_mismatch(options, supplied, first),
    decreases at,
{
    if forall|i: int| 0 <= i < at ==> assigned(#[trigger] options[i], supplied) is Some {
        assert(is_first_mismatch(options, supplied, at));
    } else {
        let earlier = choose|i: int| 0 <= i < at && !(assigned(#[trigger] options[i], supplied) is Some);
        lemma_some_mismatch_has_first(options, supplied, earlier);
    }
}

/// The registered options of a plugin, in the order of registration. No two
/// bear the same name.
#[derive(Debug, PartialEq)]
pub struct OptionSet {
    options: Vec<ConfigOption>,
}

impl View for OptionSet {
    type V = Seq<OptionModel>;

    closed spec fn view(&self) -> Seq<OptionModel> {
        options_view(self.options@)
    }
}

impl OptionSet {
    #[verifier::type_invariant]
    spec fn valid(self) -> bool {
        distinct_names(options_view(self.options@))
    }

    /// A set without options.
    pub fn new() -> (set: OptionSet)
        ensures
            set@ == Seq::<OptionModel>::empty(),
    {
        let set = OptionSet { options: Vec::new() };
        assert(set@ =~= Seq::<OptionModel>::empty());
        set
    }

    /// The number of options.
    pub fn len(&self) -> (n: usize)
        ensures
            n == self@.len(),
    {
        self.options.len()
    }

    /// Whether an option of that name is registered.
    pub fn declares(&self, name: &str) -> (found: bool)
        ensures
            found == declares(self@, name@),
    {
        let wanted: String = name.to_owned();
        let mut at: usize = 0;
        while at < self.options.len()
            invariant
                at <= self.options.len(),
                wanted@ == name@,
                forall|i: int| 0 <= i < at ==> (#[trigger] self@[i]).name != name@,
            decreases self.options.len() - at,
        {
            if *self.options[at].name() == wanted {
                assert(self@[at as int].name == name@);
                return true;
            }
            at = at + 1;
        }
        false
    }

    /// Registers an option, after those registered before. Its name must be
    /// new to the set.
    pub fn register(&mut self, option: ConfigOption)
        requires
            !declares(old(self)@, option@.name),
        ensures
            final(self)@ == old(self)@.push(option@),
    {
        proof {
            use_type_invariant(&*self);
        }
        let mut current = OptionSet::new();
        std::mem::swap(self, &mut current);
        let OptionSet { options } = current;
        let mut options = options;
        let ghost before = options_view(options@);
        options.push(option);
        proof {
            let after = options_view(options@);
            assert(after =~= before.push(option@));
            assert forall|i: int, j: int|
                0 <= i < after.len() && 0 <= j < after.len() && i != j implies (#[trigger] after[i]).name
                != (#[trigger] after[j]).name by {
                if i < before.len() && j < before.len() {
                    assert(before[i].name != before[j].name);
                } else if i < before.len() {
                    assert(before[i].name != option@.name);
                } else {
                    assert(before[j].name != option@.name);
                }
            }
        }
        *self = OptionSet { options };
    }

    /// The options, copied, in the order of registration.
    pub fn to_vec(&self) -> (copy: Vec<ConfigOption>)
        ensures
            options_view(copy@) == self@,
            distinct_names(self@),
    {
        proof {
            use_type_invariant(self);
        }
        let mut copy: Vec<ConfigOption> = Vec::new();
        let mut at: usize = 0;
        while at < self.options.len()
            invariant
                at <= self.options.len(),
                copy@.len() == at,
                forall|i: int| 0 <= i < at ==> (#[trigger] copy@[i])@ == self@[i],
            decreases self.options.len() - at,
        {
            copy.push(self.options[at].clone());
            at = at + 1;
        }
        assert(options_view(copy@) =~= self@);
        copy
    }

    /// The manifest entries of the options, in the order of registration.
    pub fn manifest_entries(&self) -> (entries: Vec<Json>)
        ensures
            entries@.len() == self@.len(),
            forall|i: int| 0 <= i < self@.len() ==> (#[trigger] entries@[i])@ == self@[i].manifest_entry(),
    {
        let mut entries: Vec<Json> = Vec::new();
        let mut at: usize = 0;
        while at < self.options.len()
            invariant
                at <= self.options.len(),
                entries@.len() == at,
                forall|i: int| 0 <= i < at ==> (#[trigger] entries@[i])@ == self@[i].manifest_entry(),
            decreases self.options.len() - at,
        {
            entries.push(self.options[at].manifest_entry());
            at = at + 1;
        }
        entries
    }

    /// Assigns the values that the host sent, by name. For an option without
    /// a value among them nothing changes. A value of the wrong kind fails the
    /// whole call: no option is changed then, and the error names the first
    /// option, in the order of registration, for which such a value was sent.
    pub fn assign_all(&mut self, supplied: &Vec<(String, Json)>) -> (done: Result<(), TypeMismatch>)
        ensures
            match done {
                Ok(()) => init_spec(old(self)@, members_view(supplied@)) == Ok::<
                    Seq<OptionModel>,
                    Seq<char>,
                >(final(self)@),
                Err(mismatch) => init_spec(old(self)@, members_view(supplied@)) == Err::<
                    Seq<OptionModel>,
                    Seq<char>,
                >(mismatch.option@) && final(self)@ == old(self)@,
            },
            declarations(final(self)@) == declarations(old(self)@),
    {
        proof {
            use_type_invariant(&*self);
        }
        let ghost before = self@;
        let ghost sent = members_view(supplied@);
        let mut fresh: Vec<ConfigOption> = Vec::new();
        let mut at: usize = 0;
        while at < self.options.len()
            invariant
                at <= self.options.len(),
                before == self@,
                *self == *old(self),
                sent == members_view(supplied@),
                fresh@.len() == at,
                forall|i: int| 0 <= i < at ==> assigned(#[trigger] before[i], sent) == Some(fresh@[i]@),
            decreases self.options.len() - at,
        {
            let mut option = self.options[at].clone();
            match find_member(supplied, option.name().as_str()) {
                Some(raw) => {
                    match option.assign(raw) {
                        Ok(()) => {},
                        Err(mismatch) => {
                            proof {
                                assert(assigned(before[at as int], sent) is None);
                                lemma_first_mismatch(before, sent, at as int);
                            }
                            return Err(mismatch);
                        },
                    }
                },
                None => {},
            }
            fresh.push(option);
            at = at + 1;
        }
        proof {
            lemma_no_mismatch(before, sent);
            let after = options_view(fresh@);
            assert(after =~= Seq::new(before.len(), |i: int| assigned(before[i], sent)->0));
            lemma_init_keeps_declarations(before, sent);
            assert forall|i: int, j: int|
                0 <= i < after.len() && 0 <= j < after.len() && i != j implies (#[trigger] after[i]).name
                != (#[trigger] after[j]).name by {
                assert(after[i].name == before[i].name);
                assert(after[j].name == before[j].name);
            }
        }
        *self = OptionSet { options: fresh };
        Ok(())
    }
}

} // verus!
