//! The builder synthesizer.
//!
//! Given a schema with type name `S` and fields `f_1..f_n`, the synthesizer
//! deterministically emits source text for, in this order: the builder type
//! `SBuilder` (one optional slot per field), the factory `S::builder()`
//! (every slot absent), one fluent setter per field, and the validating
//! `build` method. Each emission routine's contract pins the text it
//! produces, character for character, to a spec-level rendering of the
//! schema's text view, so identical descriptors always yield identical
//! artifacts.

use crate::descriptor::{
    described_schema, extract, ExtractError, FieldText, SchemaText, StructDescriptor,
    TypeDescription,
};
use vstd::prelude::*;

verus! {

/// The name of the generated builder type: the described type's name with
/// `Builder` appended.
pub open spec fn builder_name_text(name: Seq<char>) -> Seq<char> {
    name + "Builder"@
}

/// The slot declaration emitted for one field: the field's own name, typed as
/// an optional holding the field's declared type.
pub open spec fn slot_decl_text(f: FieldText) -> Seq<char> {
    "    "@ + f.name + ": Option<"@ + f.ty + ">,\n"@
}

/// The slot declarations of all fields, in declaration order.
pub open spec fn slot_decls_text(fields: Seq<FieldText>) -> Seq<char>
    decreases fields.len(),
{
    if fields.len() == 0 {
        Seq::empty()
    } else {
        slot_decls_text(fields.drop_last()) + slot_decl_text(fields.last())
    }
}

/// The initializer emitted for one field by the factory: the slot set to
/// absent.
pub open spec fn none_init_text(f: FieldText) -> Seq<char> {
    "            "@ + f.name + ": None,\n"@
}

/// The factory initializers of all fields, in declaration order.
pub open spec fn none_inits_text(fields: Seq<FieldText>) -> Seq<char>
    decreases fields.len(),
{
    if fields.len() == 0 {
        Seq::empty()
    } else {
        none_inits_text(fields.drop_last()) + none_init_text(fields.last())
    }
}

/// The setter emitted for one field: a method named like the field, taking
/// one argument of the field's type by value, unconditionally overwriting the
/// slot, and returning a mutable handle to the builder for chaining.
pub open spec fn setter_text(f: FieldText) -> Seq<char> {
    "    fn "@ + f.name + "(&mut self, "@ + f.name + ": "@ + f.ty
        + ") -> &mut Self {\n        self."@ + f.name + " = Some("@ + f.name
        + ");\n        self\n    }\n"@
}

/// The setters of all fields, in declaration order.
pub open spec fn setters_text(fields: Seq<FieldText>) -> Seq<char>
    decreases fields.len(),
{
    if fields.len() == 0 {
        Seq::empty()
    } else {
        setters_text(fields.drop_last()) + setter_text(fields.last())
    }
}

/// The presence check emitted for one field inside `build`: the slot's value
/// is duplicated out (the slot itself is left untouched), and an absent slot
/// fails the build with an error naming the field.
pub open spec fn build_check_text(f: FieldText) -> Seq<char> {
    "        let "@ + f.name + " = self."@ + f.name + ".clone().ok_or(String::from(\""@ + f.name
        + " not set\"))?;\n"@
}

/// The presence checks of all fields, in declaration order, so that the first
/// missing field in declaration order is the one reported.
pub open spec fn build_checks_text(fields: Seq<FieldText>) -> Seq<char>
    decreases fields.len(),
{
    if fields.len() == 0 {
        Seq::empty()
    } else {
        build_checks_text(fields.drop_last()) + build_check_text(fields.last())
    }
}

/// The assignment emitted for one field when `build` assembles the final
/// value: destination and source are matched by the field's name.
pub open spec fn build_assign_text(f: FieldText) -> Seq<char> {
    "            "@ + f.name + ": "@ + f.name + ",\n"@
}

/// The assembly assignments of all fields, in declaration order.
pub open spec fn build_assigns_text(fields: Seq<FieldText>) -> Seq<char>
    decreases fields.len(),
{
    if fields.len() == 0 {
        Seq::empty()
    } else {
        build_assigns_text(fields.drop_last()) + build_assign_text(fields.last())
    }
}

/// The generated builder type definition.
pub open spec fn builder_struct_text(s: SchemaText) -> Seq<char> {
    "pub struct "@ + builder_name_text(s.name) + " {\n"@ + slot_decls_text(s.fields) + "}\n"@
}

/// The generated factory: a function on the described type returning a fresh
/// builder with every slot absent.
pub open spec fn factory_text(s: SchemaText) -> Seq<char> {
    "impl "@ + s.name + " {\n    pub fn builder() -> "@ + builder_name_text(s.name)
        + " {\n        "@ + builder_name_text(s.name) + " {\n"@ + none_inits_text(s.fields)
        + "        }\n    }\n}\n"@
}

/// The generated `build` method: per-field presence checks in declaration
/// order, then assembly of the described type from the duplicated values.
pub open spec fn build_fn_text(s: SchemaText) -> Seq<char> {
    "    pub fn build(&mut self) -> Result<"@ + s.name + ", Box<dyn Error>> {\n"@
        + build_checks_text(s.fields) + "        Ok("@ + s.name + " {\n"@ + build_assigns_text(
        s.fields,
    ) + "        })\n    }\n"@
}

/// The generated impl block on the builder type: all setters, then `build`.
pub open spec fn builder_impl_text(s: SchemaText) -> Seq<char> {
    "use std::error::Error;\nimpl "@ + builder_name_text(s.name) + " {\n"@ + setters_text(s.fields)
        + build_fn_text(s) + "}\n"@
}

/// The whole generated artifact: builder type, factory, setters and build
/// operation, in this fixed order. The artifact is a pure function of the
/// schema text: identical descriptors always produce textually identical
/// artifacts.
pub open spec fn artifact_text(s: SchemaText) -> Seq<char> {
    builder_struct_text(s) + factory_text(s) + builder_impl_text(s)
}

/// Extending the emitted range by one field appends exactly that field's slot
/// declaration.
proof fn lemma_slot_decls_snoc(fields: Seq<FieldText>, i: int)
    requires
        0 <= i < fields.len(),
    ensures
        slot_decls_text(fields.take(i + 1)) == slot_decls_text(fields.take(i)) + slot_decl_text(
            fields[i],
        ),
{
    assert(fields.take(i + 1).drop_last() =~= fields.take(i));
    assert(fields.take(i + 1).last() == fields[i]);
}

proof fn lemma_none_inits_snoc(fields: Seq<FieldText>, i: int)
    requires
        0 <= i < fields.len(),
    ensures
        none_inits_text(fields.take(i + 1)) == none_inits_text(fields.take(i)) + none_init_text(
            fields[i],
        ),
{
    assert(fields.take(i + 1).drop_last() =~= fields.take(i));
    assert(fields.take(i + 1).last() == fields[i]);
}

proof fn lemma_setters_snoc(fields: Seq<FieldText>, i: int)
    requires
        0 <= i < fields.len(),
    ensures
        setters_text(fields.take(i + 1)) == setters_text(fields.take(i)) + setter_text(fields[i]),
{
    assert(fields.take(i + 1).drop_last() =~= fields.take(i));
    assert(fields.take(i + 1).last() == fields[i]);
}

proof fn lemma_build_checks_snoc(fields: Seq<FieldText>, i: int)
    requires
        0 <= i < fields.len(),
    ensures
        build_checks_text(fields.take(i + 1)) == build_checks_text(fields.take(i))
            + build_check_text(fields[i]),
{
    assert(fields.take(i + 1).drop_last() =~= fields.take(i));
    assert(fields.take(i + 1).last() == fields[i]);
}

proof fn lemma_build_assigns_snoc(fields: Seq<FieldText>, i: int)
    requires
        0 <= i < fields.len(),
    ensures
        build_assigns_text(fields.take(i + 1)) == build_assigns_text(fields.take(i))
            + build_assign_text(fields[i]),
{
    assert(fields.take(i + 1).drop_last() =~= fields.take(i));
    assert(fields.take(i + 1).last() == fields[i]);
}

/// Splitting the fields anywhere splits the emitted slot declarations at the
/// same place: emission distributes over concatenation of field ranges.
proof fn lemma_slot_decls_concat(a: Seq<FieldText>, b: Seq<FieldText>)
    ensures
        slot_decls_text(a + b) == slot_decls_text(a) + slot_decls_text(b),
    decreases b.len(),
{
    if b.len() == 0 {
        assert(a + b =~= a);
        assert(slot_decls_text(a) + slot_decls_text(b) =~= slot_decls_text(a));
    } else {
        lemma_slot_decls_concat(a, b.drop_last());
        assert((a + b).drop_last() =~= a + b.drop_last());
        assert((a + b).last() == b.last());
        assert((slot_decls_text(a) + slot_decls_text(b.drop_last())) + slot_decl_text(b.last())
            =~= slot_decls_text(a) + (slot_decls_text(b.drop_last()) + slot_decl_text(b.last())));
    }
}

/// Field order in the generated builder type matches declaration order
/// exactly: field `i`'s slot declaration stands between the declarations of
/// the fields declared before it and the declarations of those declared after
/// it.
pub proof fn lemma_slot_decls_order(fields: Seq<FieldText>, i: int)
    requires
        0 <= i < fields.len(),
    ensures
        slot_decls_text(fields) == slot_decls_text(fields.take(i)) + slot_decl_text(fields[i])
            + slot_decls_text(fields.skip(i + 1)),
{
    lemma_slot_decls_concat(fields.take(i + 1), fields.skip(i + 1));
    assert(fields.take(i + 1) + fields.skip(i + 1) =~= fields);
    lemma_slot_decls_snoc(fields, i);
}

/// Emits the builder type's slot declarations, one per field, in declaration
/// order.
pub fn builder_fields(d: &StructDescriptor) -> (r: String)
    ensures
        r@ == slot_decls_text(d@.fields),
{
    let ghost fvs = d@.fields;
    let mut out = String::new();
    let n = d.fields.len();
    for i in 0..n
        invariant
            n == d.fields@.len(),
            fvs == d@.fields,
            fvs.len() == n,
            out@ == slot_decls_text(fvs.take(i as int)),
    {
        out.append("    ");
        out.append(d.fields[i].name.as_str());
        out.append(": Option<");
        out.append(d.fields[i].ty.as_str());
        out.append(">,\n");
        proof {
            lemma_slot_decls_snoc(fvs, i as int);
            assert(out@ == slot_decls_text(fvs.take(i as int)) + slot_decl_text(fvs[i as int]));
        }
    }
    proof {
        assert(fvs.take(n as int) =~= fvs);
    }
    out
}

/// Emits the factory's slot initializers, every slot absent, in declaration
/// order.
pub fn builder_fields_none(d: &StructDescriptor) -> (r: String)
    ensures
        r@ == none_inits_text(d@.fields),
{
    let ghost fvs = d@.fields;
    let mut out = String::new();
    let n = d.fields.len();
    for i in 0..n
        invariant
            n == d.fields@.len(),
            fvs == d@.fields,
            fvs.len() == n,
            out@ == none_inits_text(fvs.take(i as int)),
    {
        out.append("            ");
        out.append(d.fields[i].name.as_str());
        out.append(": None,\n");
        proof {
            lemma_none_inits_snoc(fvs, i as int);
            assert(out@ == none_inits_text(fvs.take(i as int)) + none_init_text(fvs[i as int]));
        }
    }
    proof {
        assert(fvs.take(n as int) =~= fvs);
    }
    out
}

/// Emits one fluent setter per field, in declaration order.
pub fn builder_fields_setter(d: &StructDescriptor) -> (r: String)
    ensures
        r@ == setters_text(d@.fields),
{
    let ghost fvs = d@.fields;
    let mut out = String::new();
    let n = d.fields.len();
    for i in 0..n
        invariant
            n == d.fields@.len(),
            fvs == d@.fields,
            fvs.len() == n,
            out@ == setters_text(fvs.take(i as int)),
    {
        out.append("    fn ");
        out.append(d.fields[i].name.as_str());
        out.append("(&mut self, ");
        out.append(d.fields[i].name.as_str());
        out.append(": ");
        out.append(d.fields[i].ty.as_str());
        out.append(") -> &mut Self {\n        self.");
        out.append(d.fields[i].name.as_str());
        out.append(" = Some(");
        out.append(d.fields[i].name.as_str());
        out.append(");\n        self\n    }\n");
        proof {
            lemma_setters_snoc(fvs, i as int);
            assert(out@ == setters_text(fvs.take(i as int)) + setter_text(fvs[i as int]));
        }
    }
    proof {
        assert(fvs.take(n as int) =~= fvs);
    }
    out
}

/// Emits the `build` method's per-field presence checks, in declaration
/// order, each duplicating the slot's value and failing with an error that
/// names the field when the slot is absent.
pub fn builder_fields_build_1(d: &StructDescriptor) -> (r: String)
    ensures
        r@ == build_checks_text(d@.fields),
{
    let ghost fvs = d@.fields;
    let mut out = String::new();
    let n = d.fields.len();
    for i in 0..n
        invariant
            n == d.fields@.len(),
            fvs == d@.fields,
            fvs.len() == n,
            out@ == build_checks_text(fvs.take(i as int)),
    {
        out.append("        let ");
        out.append(d.fields[i].name.as_str());
        out.append(" = self.");
        out.append(d.fields[i].name.as_str());
        out.append(".clone().ok_or(String::from(\"");
        out.append(d.fields[i].name.as_str());
        out.append(" not set\"))?;\n");
        proof {
            lemma_build_checks_snoc(fvs, i as int);
            assert(out@ == build_checks_text(fvs.take(i as int)) + build_check_text(
                fvs[i as int],
            ));
        }
    }
    proof {
        assert(fvs.take(n as int) =~= fvs);
    }
    out
}

/// Emits the `build` method's assembly assignments, matching each destination
/// field to its duplicated value by name, in declaration order.
pub fn builder_fields_build_2(d: &StructDescriptor) -> (r: String)
    ensures
        r@ == build_assigns_text(d@.fields),
{
    let ghost fvs = d@.fields;
    let mut out = String::new();
    let n = d.fields.len();
    for i in 0..n
        invariant
            n == d.fields@.len(),
            fvs == d@.fields,
            fvs.len() == n,
            out@ == build_assigns_text(fvs.take(i as int)),
    {
        out.append("            ");
        out.append(d.fields[i].name.as_str());
        out.append(": ");
        out.append(d.fields[i].name.as_str());
        out.append(",\n");
        proof {
            lemma_build_assigns_snoc(fvs, i as int);
            assert(out@ == build_assigns_text(fvs.take(i as int)) + build_assign_text(
                fvs[i as int],
            ));
        }
    }
    proof {
        assert(fvs.take(n as int) =~= fvs);
    }
    out
}

/// Renders the whole artifact for a schema: builder type, factory, setters
/// and build operation, combined in that fixed order.
#[verifier::rlimit(50)]
pub fn synthesize(d: &StructDescriptor) -> (r: String)
    ensures
        r@ == artifact_text(d@),
{
    let mut builder_name = String::new();
    builder_name.append(d.name.as_str());
    builder_name.append("Builder");
    proof {
        assert(builder_name@ == builder_name_text(d@.name));
    }
    let fields_decls = builder_fields(d);
    let none_inits = builder_fields_none(d);
    let setters = builder_fields_setter(d);
    let checks = builder_fields_build_1(d);
    let assigns = builder_fields_build_2(d);

    let mut out = String::new();
    out.append("pub struct ");
    out.append(builder_name.as_str());
    out.append(" {\n");
    out.append(fields_decls.as_str());
    out.append("}\n");
    proof {
        assert(out@ == builder_struct_text(d@));
    }

    out.append("impl ");
    out.append(d.name.as_str());
    out.append(" {\n    pub fn builder() -> ");
    out.append(builder_name.as_str());
    out.append(" {\n        ");
    out.append(builder_name.as_str());
    out.append(" {\n");
    out.append(none_inits.as_str());
    out.append("        }\n    }\n}\n");
    proof {
        assert(out@ == builder_struct_text(d@) + factory_text(d@));
    }

    out.append("use std::error::Error;\nimpl ");
    out.append(builder_name.as_str());
    out.append(" {\n");
    out.append(setters.as_str());
    out.append("    pub fn build(&mut self) -> Result<");
    out.append(d.name.as_str());
    out.append(", Box<dyn Error>> {\n");
    out.append(checks.as_str());
    out.append("        Ok(");
    out.append(d.name.as_str());
    out.append(" {\n");
    out.append(assigns.as_str());
    out.append("        })\n    }\n");
    out.append("}\n");
    proof {
        assert(out@ == builder_struct_text(d@) + factory_text(d@) + builder_impl_text(d@));
    }
    out
}

/// Runs one whole generation request: extraction, then synthesis.
///
/// On a named-fields description the result is the artifact text for the
/// described schema; on every other shape it is the extractor's
/// `UnsupportedShape` failure, naming the described type.
pub fn derive(input: &TypeDescription) -> (r: Result<String, ExtractError>)
    ensures
        match r {
            Ok(text) => {
                &&& input.shape is NamedFields
                &&& text@ == artifact_text(described_schema(*input))
            },
            Err(e) => {
                &&& !(input.shape is NamedFields)
                &&& e matches ExtractError::UnsupportedShape { name } && name == input.name
            },
        },
{
    match extract(input) {
        Ok(d) => Ok(synthesize(&d)),
        Err(e) => Err(e),
    }
}

} // verus!
