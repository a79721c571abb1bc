use vstd::hash_map::StringHashMap;
use vstd::prelude::*;

verus! {

/// Text of each field of a string map, seen as character sequences.
pub open spec fn text_view(m: Map<Seq<char>, String>) -> Map<Seq<char>, Seq<char>> {
    m.map_values(|s: String| s@)
}

/// A record whose fields are read and written by name, each as its text form.
///
/// `fields` is the record seen as a map from field name to the text of that
/// field; a name that is not a field of the record is not in its domain.
pub trait FormStruct: Sized {
    spec fn fields(&self) -> Map<Seq<char>, Seq<char>>;

    /// The text of the field `name`, or `None` where the record has no such field.
    fn get(&self, name: &str) -> (r: Option<String>)
        ensures
            match r {
                Some(s) => self.fields().contains_key(name@) && s@ == self.fields()[name@],
                None => !self.fields().contains_key(name@),
            },
    ;

    /// Writes `value` into the field `name`; a name that is not a field of the
    /// record leaves it as it was.
    fn set(&mut self, name: &str, value: &str)
        ensures
            final(self).fields() == (if old(self).fields().contains_key(name@) {
                old(self).fields().insert(name@, value@)
            } else {
                old(self).fields()
            }),
    ;
}

/// A record made of text fields only, keyed by name.
pub struct TextFields {
    map: StringHashMap<String>,
}

impl TextFields {
    /// The fields of the record with their text.
    pub closed spec fn view_fields(&self) -> Map<Seq<char>, Seq<char>> {
        text_view(self.map@)
    }

    /// A record with no fields.
    pub fn new() -> (r: TextFields)
        ensures
            r.fields() == Map::<Seq<char>, Seq<char>>::empty(),
    {
        let r = TextFields { map: StringHashMap::new() };
        proof {
            assert(r.view_fields() =~= Map::<Seq<char>, Seq<char>>::empty());
        }
        r
    }

    /// Adds the field `name` holding `value`, or overwrites it where it exists.
    pub fn insert_field(&mut self, name: &str, value: &str)
        ensures
            final(self).fields() == old(self).fields().insert(name@, value@),
    {
        self.map.insert(name.to_owned(), value.to_owned());
        proof {
            assert(self.view_fields() =~= old(self).view_fields().insert(name@, value@));
        }
    }

    /// Whether `name` is a field of the record.
    pub fn has_field(&self, name: &str) -> (r: bool)
        ensures
            r == self.fields().contains_key(name@),
    {
        self.map.contains_key(name)
    }
}

impl Default for TextFields {
    fn default() -> (r: TextFields)
        ensures
            r.fields() == Map::<Seq<char>, Seq<char>>::empty(),
    {
        TextFields::new()
    }
}

impl FormStruct for TextFields {
    open spec fn fields(&self) -> Map<Seq<char>, Seq<char>> {
        self.view_fields()
    }

    fn get(&self, name: &str) -> (r: Option<String>) {
        match self.map.get(name) {
            Some(s) => Some(s.clone()),
            None => None,
        }
    }

    fn set(&mut self, name: &str, value: &str) {
        if self.map.contains_key(name) {
            self.map.insert(name.to_owned(), value.to_owned());
            proof {
                assert(self.view_fields() =~= old(self).view_fields().insert(name@, value@));
            }
        }
    }
}

} // verus!
