//! Values of a derived sum type and of its companion type.
use vstd::prelude::*;
use crate::Kinded;
use crate::generate::KindedArtifact;
use crate::model::{FieldsType, Variant};
use crate::text::text_is;

verus! {

/// The fields of a value, each by its source text.
#[derive(Debug)]
pub enum Payload {
    Unit,
    Unnamed(Vec<String>),
    Named(Vec<(String, String)>),
}

pub open spec fn shape_of(p: Payload) -> FieldsType {
    match p {
        Payload::Unit => FieldsType::Unit,
        Payload::Unnamed(_) => FieldsType::Unnamed,
        Payload::Named(_) => FieldsType::Named,
    }
}

/// A value of a derived sum type: the position of its variant, and its fields.
#[derive(Debug)]
pub struct SumValue {
    pub variant: usize,
    pub payload: Payload,
}

/// A value of a companion type: the position of its variant.
#[derive(Debug, Clone, Copy, PartialEq, Eq, Structural, Hash)]
pub struct KindValue {
    pub index: usize,
}

/// The companion variant of a value: the one at the position of its variant.
pub open spec fn kind_of_value(v: SumValue) -> KindValue {
    KindValue { index: v.variant }
}

impl Kinded for SumValue {
    type Kind = KindValue;

    open spec fn kind_spec(&self) -> KindValue {
        kind_of_value(*self)
    }

    fn kind(&self) -> (r: KindValue) {
        KindValue { index: self.variant }
    }
}

impl From<SumValue> for KindValue {
    fn from(v: SumValue) -> (r: KindValue) {
        v.kind()
    }
}

impl vstd::std_specs::convert::FromSpecImpl<SumValue> for KindValue {
    open spec fn obeys_from_spec() -> bool {
        true
    }

    open spec fn from_spec(v: SumValue) -> KindValue {
        kind_of_value(v)
    }
}

impl<'a> From<&'a SumValue> for KindValue {
    fn from(v: &'a SumValue) -> (r: KindValue) {
        v.kind()
    }
}

impl<'a> vstd::std_specs::convert::FromSpecImpl<&'a SumValue> for KindValue {
    open spec fn obeys_from_spec() -> bool {
        true
    }

    open spec fn from_spec(v: &'a SumValue) -> KindValue {
        kind_of_value(*v)
    }
}

/// Position `i` is the first in `names` that reads `name`.
pub open spec fn first_named(names: Seq<Seq<char>>, name: Seq<char>, i: int) -> bool {
    &&& 0 <= i < names.len()
    &&& names[i] == name
    &&& forall|j: int| 0 <= j < i ==> names[j] != name
}

pub open spec fn variant_names(vs: Seq<Variant>) -> Seq<Seq<char>> {
    vs.map_values(|v: Variant| v.ident@)
}

impl KindedArtifact {
    /// The names of the companion type's variants.
    pub open spec fn kind_names(&self) -> Seq<Seq<char>> {
        crate::model::names_view(self.kind_variants@)
    }

    /// The artifact was built for its variants: one companion variant per
    /// original variant, of the same name.
    pub open spec fn well_formed(&self) -> bool {
        &&& self.kind_variants@.len() == self.variants@.len()
        &&& forall|i: int|
            0 <= i < self.variants@.len() ==> (#[trigger] self.kind_variants@[i])@
                == self.variants@[i].ident@
        &&& match self.display {
            Some(d) => d@.len() == self.variants@.len(),
            None => true,
        }
    }

    /// The value of the original type with the named variant and these
    /// fields; `None` where no variant has that name, or where the fields do
    /// not have the variant's shape.
    pub fn value(&self, name: &str, payload: Payload) -> (r: Option<SumValue>)
        ensures
            match r {
                Some(v) => {
                    &&& first_named(variant_names(self.variants@), name@, v.variant as int)
                    &&& shape_of(payload) == self.variants@[v.variant as int].fields_type
                    &&& v.payload == payload
                },
                None => forall|i: int|
                    first_named(variant_names(self.variants@), name@, i) ==> shape_of(payload)
                        != self.variants@[i].fields_type,
            },
    {
        let mut i: usize = 0;
        while i < self.variants.len()
            invariant
                i <= self.variants@.len(),
                forall|j: int| 0 <= j < i ==> self.variants@[j].ident@ != name@,
            decreases self.variants@.len() - i,
        {
            if text_is(&self.variants[i].ident, name) {
                let shape = match &payload {
                    Payload::Unit => FieldsType::Unit,
                    Payload::Unnamed(_) => FieldsType::Unnamed,
                    Payload::Named(_) => FieldsType::Named,
                };
                assert(first_named(variant_names(self.variants@), name@, i as int));
                if shape == self.variants[i].fields_type {
                    return Some(SumValue { variant: i, payload });
                } else {
                    return None;
                }
            }
            i += 1;
        }
        None
    }

    /// The companion variant of this name, if there is one.
    pub fn kind_value(&self, name: &str) -> (r: Option<KindValue>)
        ensures
            match r {
                Some(k) => first_named(self.kind_names(), name@, k.index as int),
                None => !self.kind_names().contains(name@),
            },
    {
        let mut i: usize = 0;
        while i < self.kind_variants.len()
            invariant
                i <= self.kind_variants@.len(),
                forall|j: int| 0 <= j < i ==> self.kind_variants@[j]@ != name@,
            decreases self.kind_variants@.len() - i,
        {
            if text_is(&self.kind_variants[i], name) {
                return Some(KindValue { index: i });
            }
            i += 1;
        }
        assert(!self.kind_names().contains(name@)) by {
            if self.kind_names().contains(name@) {
                let k = choose|k: int| 0 <= k < self.kind_names().len() && self.kind_names()[k] == name@;
                assert(self.kind_variants@[k]@ == name@);
            }
        }
        None
    }

    /// Every companion variant, once each, in declaration order.
    pub fn all(&self) -> (r: Vec<KindValue>)
        ensures
            r@.len() == self.kind_variants@.len(),
            forall|i: int| 0 <= i < r@.len() ==> (#[trigger] r@[i]).index == i,
    {
        let mut out: Vec<KindValue> = Vec::new();
        let mut i: usize = 0;
        while i < self.kind_variants.len()
            invariant
                i <= self.kind_variants@.len(),
                out@.len() == i,
                forall|j: int| 0 <= j < i ==> (#[trigger] out@[j]).index == j,
            decreases self.kind_variants@.len() - i,
        {
            out.push(KindValue { index: i });
            i += 1;
        }
        out
    }

    /// What debug-printing shows of a companion variant: its name.
    pub fn debug_string(&self, k: KindValue) -> (r: String)
        requires
            k.index < self.kind_variants@.len(),
        ensures
            r@ == self.kind_variants@[k.index as int]@,
    {
        self.kind_variants[k.index].clone()
    }

    /// The text rendering of a companion variant, where a convention was
    /// configured.
    pub fn display_string(&self, k: KindValue) -> (r: Option<String>)
        requires
            self.well_formed(),
            k.index < self.kind_variants@.len(),
        ensures
            match self.display {
                Some(d) => r matches Some(s) && s@ == d@[k.index as int]@,
                None => r is None,
            },
    {
        match &self.display {
            Some(d) => Some(d[k.index].clone()),
            None => None,
        }
    }
}

} // verus!
