//! The descriptor extractor.
//!
//! A generation request supplies a [`TypeDescription`]: the described type's
//! name together with its [`TypeShape`]. The extractor accepts only the
//! named-fields (record) shape and turns it into a [`StructDescriptor`], the
//! ordered field schema that the synthesizer consumes. Every other shape is
//! reported as a recoverable [`ExtractError::UnsupportedShape`] carrying the
//! offending type's name.

use vstd::prelude::*;

verus! {

/// One named, typed field of an input type description: the field's name and
/// the textual name of its declared type, both as they are to appear in
/// generated source text.
pub struct NamedField {
    pub name: String,
    pub ty: String,
}

/// The shape of a described type. Only `NamedFields` can be turned into a
/// schema; the remaining shapes exist so that the extractor can report them
/// as unsupported instead of aborting the generation request.
pub enum TypeShape {
    /// A record shape: every field is named. Fields stand in declaration
    /// order.
    NamedFields(Vec<NamedField>),
    /// A positional (tuple-like) shape; carries the number of fields.
    PositionalFields(usize),
    /// A shape without any fields.
    NoFields,
    /// An enumerated-variant shape; carries the number of variants.
    Enumeration(usize),
}

/// The structural description of exactly one named type, as handed in by the
/// triggering collaborator: the type's own name plus its shape.
pub struct TypeDescription {
    pub name: String,
    pub shape: TypeShape,
}

/// The text-level view of one field: its name and its declared type's name
/// as character sequences. This is the mathematical value the synthesizer's
/// contracts speak of.
#[verifier::ext_equal]
pub struct FieldText {
    pub name: Seq<char>,
    pub ty: Seq<char>,
}

/// The text-level view of a whole schema: the described type's name and its
/// fields' texts, in declaration order.
#[verifier::ext_equal]
pub struct SchemaText {
    pub name: Seq<char>,
    pub fields: Seq<FieldText>,
}

impl View for NamedField {
    type V = FieldText;

    open spec fn view(&self) -> FieldText {
        FieldText { name: self.name@, ty: self.ty@ }
    }
}

impl DeepView for NamedField {
    type V = FieldText;

    open spec fn deep_view(&self) -> FieldText {
        self.view()
    }
}

/// One field of an extracted schema: its name, its declared type's textual
/// name, and its index in declaration order.
#[derive(Debug)]
pub struct FieldDescriptor {
    pub name: String,
    pub ty: String,
    pub position: usize,
}

impl View for FieldDescriptor {
    type V = FieldText;

    open spec fn view(&self) -> FieldText {
        FieldText { name: self.name@, ty: self.ty@ }
    }
}

impl DeepView for FieldDescriptor {
    type V = FieldText;

    open spec fn deep_view(&self) -> FieldText {
        self.view()
    }
}

/// The extracted, ordered field schema of a described type. The order of
/// `fields` is the original declaration order and determines the order in
/// which fields appear in generated text.
#[derive(Debug)]
pub struct StructDescriptor {
    pub name: String,
    pub fields: Vec<FieldDescriptor>,
}

impl View for StructDescriptor {
    type V = SchemaText;

    open spec fn view(&self) -> SchemaText {
        SchemaText { name: self.name@, fields: self.fields.deep_view() }
    }
}

impl StructDescriptor {
    /// Positions record declaration order: field `i` carries position `i`.
    pub open spec fn wf(self) -> bool {
        forall|i: int|
            0 <= i < self.fields@.len() ==> (#[trigger] self.fields@[i]).position == i
    }

    /// Field names are pairwise distinct.
    pub open spec fn distinct_names(self) -> bool {
        forall|i: int, j: int|
            0 <= i < j < self.fields@.len() ==> (#[trigger] self.fields@[i]).name@ != (
            #[trigger] self.fields@[j]).name@
    }

    /// The number of fields in the schema.
    pub open spec fn n_fields(self) -> nat {
        self.fields@.len()
    }

    /// Whether some field of the schema carries this name.
    pub open spec fn has_field(self, name: Seq<char>) -> bool {
        exists|i: int| 0 <= i < self.fields@.len() && (#[trigger] self.fields@[i]).name@ == name
    }

    /// The first index at or after `i`, in declaration order, of a field
    /// carrying `name`; the field count when there is none.
    pub open spec fn field_index_from(self, name: Seq<char>, i: int) -> int
        decreases self.fields@.len() - i
        when 0 <= i <= self.fields@.len()
    {
        if i >= self.fields@.len() {
            i
        } else if self.fields@[i].name@ == name {
            i
        } else {
            self.field_index_from(name, i + 1)
        }
    }

    /// The declaration-order index of the first field carrying `name`.
    pub open spec fn field_index(self, name: Seq<char>) -> int {
        self.field_index_from(name, 0)
    }
}

/// While no field before `i` carries the name, the search from the start and
/// the search from `i` agree.
proof fn lemma_field_index_skip(d: StructDescriptor, name: Seq<char>, i: int)
    requires
        0 <= i <= d.fields@.len(),
        forall|k: int| 0 <= k < i ==> (#[trigger] d.fields@[k]).name@ != name,
    ensures
        d.field_index(name) == d.field_index_from(name, i),
    decreases i,
{
    if i > 0 {
        lemma_field_index_skip(d, name, i - 1);
    }
}

impl Clone for FieldDescriptor {
    /// Duplicating a field descriptor keeps its name, type and position.
    fn clone(&self) -> (r: Self)
        ensures
            r == self,
    {
        FieldDescriptor { name: self.name.clone(), ty: self.ty.clone(), position: self.position }
    }
}

impl Clone for StructDescriptor {
    /// Duplicating a schema keeps its name and every field; a caller may so
    /// keep a schema across the factory, which consumes one.
    fn clone(&self) -> (r: Self)
        ensures
            r.name == self.name,
            r.fields@.len() == self.fields@.len(),
            forall|i: int| 0 <= i < self.fields@.len() ==> r.fields@[i] == self.fields@[i],
            r@ == self@,
    {
        let fields = self.fields.clone();
        proof {
            assert forall|i: int| 0 <= i < self.fields@.len() implies fields@[i]
                == self.fields@[i] by {
                assert(cloned::<FieldDescriptor>(self.fields@[i], fields@[i]));
            }
            assert(fields.deep_view() =~= self.fields.deep_view());
        }
        StructDescriptor { name: self.name.clone(), fields }
    }
}

/// With pairwise distinct field names — the schema invariant the generated
/// artifact assumes — the setter addressed by field `i`'s name writes exactly
/// slot `i`: no other field answers to that name.
pub proof fn lemma_setter_addresses_own_slot(d: StructDescriptor, i: int)
    requires
        d.distinct_names(),
        0 <= i < d.fields@.len(),
    ensures
        d.has_field(d.fields@[i].name@),
        d.field_index(d.fields@[i].name@) == i,
{
    lemma_field_index_skip(d, d.fields@[i].name@, i);
}

impl StructDescriptor {
    /// Looks up a field by name: the declaration-order index of the first
    /// field carrying `name`, or nothing when no field does.
    pub fn find_field(&self, name: &String) -> (r: Option<usize>)
        ensures
            match r {
                Some(i) => {
                    &&& self.has_field(name@)
                    &&& i == self.field_index(name@)
                    &&& i < self.fields@.len()
                    &&& self.fields@[i as int].name@ == name@
                },
                None => !self.has_field(name@),
            },
    {
        let n = self.fields.len();
        for i in 0..n
            invariant
                n == self.fields@.len(),
                forall|k: int| 0 <= k < i ==> (#[trigger] self.fields@[k]).name@ != name@,
        {
            if self.fields[i].name == *name {
                proof {
                    lemma_field_index_skip(*self, name@, i as int);
                }
                return Some(i);
            }
        }
        proof {
            lemma_field_index_skip(*self, name@, n as int);
        }
        None
    }
}

/// A failure of the extractor.
#[derive(Debug, PartialEq, Eq)]
pub enum ExtractError {
    /// The described type is not a named-fields record; carries the type's
    /// name so the invoking pipeline can surface a normal diagnostic.
    UnsupportedShape { name: String },
}

/// The schema text that a named-fields type description denotes: the type's
/// name, and each declared field's name and type, in declaration order.
pub open spec fn described_schema(input: TypeDescription) -> SchemaText
    recommends
        input.shape is NamedFields,
{
    SchemaText { name: input.name@, fields: input.shape->NamedFields_0.deep_view() }
}

/// Extracts the ordered field schema from a type description.
///
/// On the named-fields shape the result keeps the type's name, keeps every
/// field under its own name and declared type, preserves declaration order,
/// and numbers the fields by position. No deduplication or renaming is
/// performed; field-name uniqueness is assumed, not enforced. On every other
/// shape the extractor fails with `UnsupportedShape`, naming the type.
pub fn extract(input: &TypeDescription) -> (r: Result<StructDescriptor, ExtractError>)
    ensures
        match r {
            Ok(d) => {
                &&& input.shape is NamedFields
                &&& d.wf()
                &&& d@ == described_schema(*input)
                &&& d.name == input.name
                &&& d.fields@.len() == input.shape->NamedFields_0@.len()
                &&& forall|i: int|
                    0 <= i < d.fields@.len() ==> {
                        &&& (#[trigger] d.fields@[i]).name == input.shape->NamedFields_0@[i].name
                        &&& d.fields@[i].ty == input.shape->NamedFields_0@[i].ty
                        &&& d.fields@[i].position == i
                    }
            },
            Err(e) => {
                &&& !(input.shape is NamedFields)
                &&& e matches ExtractError::UnsupportedShape { name } && name
                    == input.name
            },
        },
{
    match &input.shape {
        TypeShape::NamedFields(raw) => {
            let n = raw.len();
            let mut fields: Vec<FieldDescriptor> = Vec::new();
            for i in 0..n
                invariant
                    n == raw@.len(),
                    fields@.len() == i,
                    forall|k: int|
                        0 <= k < i ==> {
                            &&& (#[trigger] fields@[k]).name == raw@[k].name
                            &&& fields@[k].ty == raw@[k].ty
                            &&& fields@[k].position == k
                        },
            {
                let f = &raw[i];
                fields.push(FieldDescriptor { name: f.name.clone(), ty: f.ty.clone(), position: i });
            }
            let d = StructDescriptor { name: input.name.clone(), fields };
            proof {
                assert(d@.fields =~= described_schema(*input).fields);
                assert(d@ =~= described_schema(*input));
            }
            Ok(d)
        },
        TypeShape::PositionalFields(_) => Err(
            ExtractError::UnsupportedShape { name: input.name.clone() },
        ),
        TypeShape::NoFields => Err(ExtractError::UnsupportedShape { name: input.name.clone() }),
        TypeShape::Enumeration(_) => Err(
            ExtractError::UnsupportedShape { name: input.name.clone() },
        ),
    }
}

} // verus!
