use vstd::hash_map::StringHashMap;
use vstd::prelude::*;

use crate::fields::{text_view, FormStruct};

verus! {

/// What an input-change event carries once its target is known to be an input
/// element: the element's `name` attribute and its current value.
pub struct InputChange {
    pub name: String,
    pub value: String,
}

/// The text stored for a value that may be absent: absence reads as empty text.
pub open spec fn text_or_empty(m: Option<String>) -> Seq<char> {
    match m {
        Some(s) => s@,
        None => Seq::empty(),
    }
}

/// The text of field `f` in `fields`, or empty text where there is no such field.
pub open spec fn field_text(fields: Map<Seq<char>, Seq<char>>, f: Seq<char>) -> Seq<char> {
    if fields.contains_key(f) {
        fields[f]
    } else {
        Seq::empty()
    }
}

/// `fields` after writing `value` into the field `f`, which changes nothing where
/// `f` is not a field.
pub open spec fn write_field(fields: Map<Seq<char>, Seq<char>>, f: Seq<char>, value: Seq<char>) -> Map<
    Seq<char>,
    Seq<char>,
> {
    if fields.contains_key(f) {
        fields.insert(f, value)
    } else {
        fields
    }
}

/// The error map after recording the messages of `errs` over `base`, entry by
/// entry and message by message, each overwriting the last: a field named with
/// at least one message ends holding the last message given for it.
pub open spec fn record_errors(
    base: Map<Seq<char>, Seq<char>>,
    errs: Seq<(String, Vec<Option<String>>)>,
) -> Map<Seq<char>, Seq<char>>
    decreases errs.len(),
{
    if errs.len() == 0 {
        base
    } else {
        let prev = record_errors(base, errs.drop_last());
        let entry = errs.last();
        if entry.1@.len() == 0 {
            prev
        } else {
            prev.insert(entry.0@, text_or_empty(entry.1@.last()))
        }
    }
}

/// When one validation pass ends with an entry for `field` that carries
/// several messages, the message recorded for that field is the last of them,
/// whatever came before: messages overwrite, they do not accumulate.
pub proof fn lemma_last_message_wins(
    base: Map<Seq<char>, Seq<char>>,
    earlier: Seq<(String, Vec<Option<String>>)>,
    field: String,
    messages: Vec<Option<String>>,
)
    requires
        messages@.len() > 0,
    ensures
        record_errors(base, earlier.push((field, messages))).contains_key(field@),
        record_errors(base, earlier.push((field, messages)))[field@] == text_or_empty(
            messages@.last(),
        ),
{
    assert(earlier.push((field, messages)).drop_last() =~= earlier);
}

/// The state of one form: its current values and the message of each field
/// that the last failed validation found in error.
pub struct Form<T: FormStruct> {
    values: T,
    errors: StringHashMap<String>,
}

impl<T: FormStruct> Form<T> {
    /// The current values record.
    pub closed spec fn current(&self) -> T {
        self.values
    }

    /// The current values, as a map from field name to text.
    pub open spec fn field_values(&self) -> Map<Seq<char>, Seq<char>> {
        self.current().fields()
    }

    /// The error map: each field in error with its message.
    pub closed spec fn error_map(&self) -> Map<Seq<char>, Seq<char>> {
        text_view(self.errors@)
    }

    /// A form holding the default values record and no errors.
    pub fn new() -> (r: Form<T>)
        where
            T: Default,
        ensures
            call_ensures(T::default, (), r.current()),
            r.error_map() == Map::<Seq<char>, Seq<char>>::empty(),
    {
        Form::with_initial_values(T::default())
    }

    /// A form holding `values` and no errors.
    pub fn with_initial_values(values: T) -> (r: Form<T>)
        ensures
            r.current() == values,
            r.error_map() == Map::<Seq<char>, Seq<char>>::empty(),
    {
        let r = Form { values, errors: StringHashMap::new() };
        proof {
            assert(r.error_map() =~= Map::<Seq<char>, Seq<char>>::empty());
        }
        r
    }

    /// The values record.
    pub fn values(&self) -> (r: &T)
        ensures
            *r == self.current(),
    {
        &self.values
    }

    /// The error map, keyed by field name.
    pub fn errors(&self) -> (r: &StringHashMap<String>)
        ensures
            text_view(r@) == self.error_map(),
    {
        &self.errors
    }

    /// The text of `field`, or empty text where the record has no such field.
    pub fn value(&self, field: &str) -> (r: String)
        ensures
            r@ == field_text(self.field_values(), field@),
            !self.field_values().contains_key(field@) ==> r@ == Seq::<char>::empty(),
    {
        match self.values.get(field) {
            Some(s) => s,
            None => String::new(),
        }
    }

    /// The text of `field`, or `None` where the record has no such field.
    pub fn value_opt(&self, field: &str) -> (r: Option<String>)
        ensures
            match r {
                Some(s) => self.field_values().contains_key(field@) && s@ == self.field_values()[field@],
                None => !self.field_values().contains_key(field@),
            },
    {
        self.values.get(field)
    }

    /// Writes `value` into `field`; `None` writes empty text. The errors stay.
    pub fn set_field_value(&mut self, field: &str, value: Option<String>)
        ensures
            final(self).field_values() == write_field(
                old(self).field_values(),
                field@,
                text_or_empty(value),
            ),
            final(self).error_map() == old(self).error_map(),
    {
        let text = match value {
            Some(s) => s,
            None => String::new(),
        };
        self.values.set(field, text.as_str());
    }

    /// The message recorded for `field`, or `None` where it is not in error.
    pub fn error(&self, field: &str) -> (r: Option<String>)
        ensures
            match r {
                Some(s) => self.error_map().contains_key(field@) && s@ == self.error_map()[field@],
                None => !self.error_map().contains_key(field@),
            },
    {
        match self.errors.get(field) {
            Some(s) => Some(s.clone()),
            None => None,
        }
    }

    /// Applies an input-change event: `None` stands for an event whose target is
    /// not an input element, and is ignored; otherwise the value is written into
    /// the field that the element names. The errors stay.
    pub fn handle_input(&mut self, change: Option<InputChange>)
        ensures
            final(self).field_values() == (match change {
                Some(c) => write_field(old(self).field_values(), c.name@, c.value@),
                None => old(self).field_values(),
            }),
            final(self).error_map() == old(self).error_map(),
            change is None ==> *final(self) == *old(self),
    {
        match change {
            Some(c) => {
                self.values.set(c.name.as_str(), c.value.as_str());
            },
            None => {},
        }
    }

    /// Decides a submission from the outcome of validating the current values.
    /// On success the form is left as it is and `true` is returned: the values
    /// are to be handed on. On failure, each field error list is recorded in
    /// order, every message overwriting the one before it for its field, and
    /// `false` is returned. The values never change.
    pub fn handle_submit(&mut self, outcome: Result<(), Vec<(String, Vec<Option<String>>)>>) -> (submit:
        bool)
        ensures
            submit == outcome is Ok,
            final(self).current() == old(self).current(),
            final(self).error_map() == (match outcome {
                Ok(_) => old(self).error_map(),
                Err(errs) => record_errors(old(self).error_map(), errs@),
            }),
            submit ==> *final(self) == *old(self),
    {
        match outcome {
            Ok(_) => true,
            Err(field_errors) => {
                let ghost base = self.error_map();
                let mut i: usize = 0;
                while i < field_errors.len()
                    invariant
                        i <= field_errors@.len(),
                        self.current() == old(self).current(),
                        base == old(self).error_map(),
                        self.error_map() == record_errors(base, field_errors@.subrange(0, i as int)),
                    decreases field_errors.len() - i,
                {
                    let field = &field_errors[i].0;
                    let messages = &field_errors[i].1;
                    let ghost before = self.error_map();
                    let mut j: usize = 0;
                    while j < messages.len()
                        invariant
                            j <= messages@.len(),
                            self.current() == old(self).current(),
                            self.error_map() == (if j == 0 {
                                before
                            } else {
                                before.insert(field@, text_or_empty(messages@[j - 1]))
                            }),
                        decreases messages.len() - j,
                    {
                        let text = match &messages[j] {
                            Some(m) => m.clone(),
                            None => String::new(),
                        };
                        assert(text@ == text_or_empty(messages@[j as int]));
                        let ghost prev = self.errors@;
                        self.errors.insert(field.clone(), text);
                        proof {
                            assert(text_view(prev.insert(field@, text)) =~= text_view(prev).insert(
                                field@,
                                text@,
                            ));
                            assert(self.error_map() =~= before.insert(field@, text@));
                        }
                        j += 1;
                    }
                    proof {
                        let prefix = field_errors@.subrange(0, i + 1);
                        assert(prefix.drop_last() =~= field_errors@.subrange(0, i as int));
                        assert(prefix.last() == field_errors@[i as int]);
                    }
                    i += 1;
                }
                proof {
                    assert(field_errors@.subrange(0, field_errors@.len() as int) =~= field_errors@);
                }
                false
            },
        }
    }
}

} // verus!
