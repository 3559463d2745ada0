//! Configuration code generation: the definition-file parser, the `#define`
//! registry, the type registry and the assembly of parsed lines into structs.
use vstd::prelude::*;
use crate::codegen::model::{ConfigDocument, ConfigField, ConfigStructure, TypeRegistry};
use crate::codegen::parser::ConfigLine;
use crate::codegen::registry::{VariableRegistry, substitute, tag};
use crate::codegen::text::lowercase;

pub mod generator;
pub mod model;
pub mod parser;
pub mod registry;
pub mod text;

verus! {

/// A field with its text viewed.
pub struct FieldView {
    /// Field name.
    pub name: Seq<char>,
    /// C type name.
    pub c_type: Seq<char>,
    /// Comment.
    pub comment: Option<Seq<char>>,
    /// Array dimensions.
    pub array_sizes: Seq<usize>,
    /// TunerStudio metadata text.
    pub ts_info_text: Option<Seq<char>>,
    /// Bit field flag.
    pub is_bit_field: bool,
    /// Directive flag.
    pub is_directive: bool,
    /// Set label of a bit field.
    pub true_label: Option<Seq<char>>,
    /// Clear label of a bit field.
    pub false_label: Option<Seq<char>>,
    /// Autoscale flag.
    pub has_autoscale: bool,
    /// Iterate flag.
    pub is_iterate: bool,
    /// Source iterate field name.
    pub from_iterate: Option<Seq<char>>,
    /// Iterate index.
    pub iterate_index: Option<usize>,
}

/// The text of an optional string.
pub open spec fn opt_view(o: Option<String>) -> Option<Seq<char>> {
    match o {
        Some(s) => Some(s@),
        None => None,
    }
}

/// `f` with its text viewed.
pub open spec fn field_view(f: ConfigField) -> FieldView {
    FieldView {
        name: f.name@,
        c_type: f.c_type@,
        comment: opt_view(f.comment),
        array_sizes: f.array_sizes@,
        ts_info_text: opt_view(f.ts_info_text),
        is_bit_field: f.is_bit_field,
        is_directive: f.is_directive,
        true_label: opt_view(f.true_label),
        false_label: opt_view(f.false_label),
        has_autoscale: f.has_autoscale,
        is_iterate: f.is_iterate,
        from_iterate: opt_view(f.from_iterate),
        iterate_index: f.iterate_index,
    }
}

/// A struct with its text and fields viewed.
pub struct StructView {
    /// Struct name.
    pub name: Seq<char>,
    /// Comment.
    pub comment: Option<Seq<char>>,
    /// Prefix flag.
    pub with_prefix: bool,
    /// Parent struct name.
    pub parent: Option<Seq<char>>,
    /// Fields.
    pub fields: Seq<FieldView>,
    /// Bit fields not yet flushed.
    pub pending_bits: Seq<FieldView>,
}

/// `s` with its text and fields viewed.
pub open spec fn struct_view(s: ConfigStructure) -> StructView {
    StructView {
        name: s.name@,
        comment: opt_view(s.comment),
        with_prefix: s.with_prefix,
        parent: opt_view(s.parent),
        fields: s.fields@.map_values(|f: ConfigField| field_view(f)),
        pending_bits: s.pending_bits@.map_values(|f: ConfigField| field_view(f)),
    }
}

/// Views of a list of structs.
pub open spec fn structs_view(s: Seq<ConfigStructure>) -> Seq<StructView> {
    s.map_values(|x: ConfigStructure| struct_view(x))
}

/// Views of a list of fields.
pub open spec fn fields_view(s: Seq<ConfigField>) -> Seq<FieldView> {
    s.map_values(|x: ConfigField| field_view(x))
}

/// State while assembling parsed lines: variables, custom type sizes, the
/// stack of open structs, finished top-level structs and top-level fields.
pub struct AssemblyView {
    /// Registered variables.
    pub vars: Map<Seq<char>, Seq<char>>,
    /// Custom type sizes.
    pub custom: Map<Seq<char>, usize>,
    /// Structs opened and not yet closed, innermost last.
    pub stack: Seq<StructView>,
    /// Finished top-level structs.
    pub structures: Seq<StructView>,
    /// Fields outside any struct.
    pub top_fields: Seq<FieldView>,
}

/// A new, empty struct.
pub open spec fn new_struct(name: Seq<char>, with_prefix: bool) -> StructView {
    StructView {
        name,
        comment: None,
        with_prefix,
        parent: None,
        fields: Seq::empty(),
        pending_bits: Seq::empty(),
    }
}

/// A bit field as `ConfigField::new_bit_field` makes it.
pub open spec fn bit_field_view(
    name: Seq<char>,
    true_label: Option<Seq<char>>,
    false_label: Option<Seq<char>>,
    comment: Option<Seq<char>>,
) -> FieldView {
    FieldView {
        name,
        c_type: "boolean"@,
        comment,
        array_sizes: Seq::empty(),
        ts_info_text: None,
        is_bit_field: true,
        is_directive: false,
        true_label,
        false_label,
        has_autoscale: false,
        is_iterate: false,
        from_iterate: None,
        iterate_index: None,
    }
}

/// The effect of one parsed line: a define is registered with the variables
/// known so far substituted into its value; a struct start opens a struct;
/// `end_struct` closes the innermost one (a top-level struct is kept, a
/// nested one dropped); a field goes to the innermost open struct, or to the
/// top level; a bit field to the innermost open struct's pending bits (and
/// is dropped outside any struct); a custom type registers its size. Other
/// lines change nothing.
pub open spec fn assemble_step(st: AssemblyView, l: ConfigLine) -> AssemblyView {
    match l {
        ConfigLine::Define(name, value) => AssemblyView {
            vars: st.vars.insert(lowercase(name@), substitute(st.vars, value@, tag(), tag())),
            ..st
        },
        ConfigLine::StructStart { name, with_prefix, .. } => AssemblyView {
            stack: st.stack.push(new_struct(name@, with_prefix)),
            ..st
        },
        ConfigLine::StructEnd => if st.stack.len() == 0 {
            st
        } else if st.stack.len() == 1 {
            AssemblyView {
                stack: Seq::empty(),
                structures: st.structures.push(st.stack.last()),
                ..st
            }
        } else {
            AssemblyView { stack: st.stack.drop_last(), ..st }
        },
        ConfigLine::Field(f) => if st.stack.len() > 0 {
            AssemblyView {
                stack: st.stack.drop_last().push(
                    StructView {
                        fields: st.stack.last().fields.push(field_view(f)),
                        ..st.stack.last()
                    },
                ),
                ..st
            }
        } else {
            AssemblyView { top_fields: st.top_fields.push(field_view(f)), ..st }
        },
        ConfigLine::BitField { name, true_label, false_label, comment } => if st.stack.len() > 0 {
            AssemblyView {
                stack: st.stack.drop_last().push(
                    StructView {
                        pending_bits: st.stack.last().pending_bits.push(
                            bit_field_view(
                                name@,
                                opt_view(true_label),
                                opt_view(false_label),
                                opt_view(comment),
                            ),
                        ),
                        ..st.stack.last()
                    },
                ),
                ..st
            }
        } else {
            st
        },
        ConfigLine::CustomType(ct) => AssemblyView { custom: st.custom.insert(ct.name@, ct.size), ..st },
        _ => st,
    }
}

/// The state after the lines `ls`, in order, from `st`.
pub open spec fn assemble(st: AssemblyView, ls: Seq<ConfigLine>) -> AssemblyView
    decreases ls.len(),
{
    if ls.len() == 0 {
        st
    } else {
        assemble_step(assemble(st, ls.drop_last()), ls.last())
    }
}

/// Process parsed lines: register defines, build the struct hierarchy into
/// `document` and register custom types.
pub fn process_lines(
    lines: Vec<ConfigLine>,
    registry: &mut VariableRegistry,
    type_registry: &mut TypeRegistry,
    document: &mut ConfigDocument,
)
    ensures
        ({
            let fin = assemble(
                AssemblyView {
                    vars: old(registry)@.vars,
                    custom: old(type_registry)@.custom,
                    stack: Seq::empty(),
                    structures: structs_view(old(document).structures@),
                    top_fields: fields_view(old(document).top_level_fields@),
                },
                lines@,
            );
            &&& final(registry)@.vars == fin.vars
            &&& final(registry)@.ints.submap_of(old(registry)@.ints)
            &&& final(type_registry)@.custom == fin.custom
            &&& final(type_registry)@.primitives == old(type_registry)@.primitives
            &&& final(type_registry)@.structs == old(type_registry)@.structs
            &&& structs_view(final(document).structures@) == fin.structures
            &&& fields_view(final(document).top_level_fields@) == fin.top_fields
            &&& final(document).defines == old(document).defines
            &&& final(document).custom_types == old(document).custom_types
        }),
{
    let ghost start = AssemblyView {
        vars: registry@.vars,
        custom: type_registry@.custom,
        stack: Seq::empty(),
        structures: structs_view(document.structures@),
        top_fields: fields_view(document.top_level_fields@),
    };
    let ghost all = lines@;
    let total = lines.len();
    let mut rest = lines;
    let mut stack: Vec<ConfigStructure> = Vec::new();
    let mut k: usize = 0;
    assert(all.skip(0) =~= all);
    assert(structs_view(stack@) =~= Seq::<StructView>::empty());
    while rest.len() > 0
        invariant
            k <= all.len(),
            all.len() == total,
            rest@ == all.skip(k as int),
            ({
                let cur = assemble(start, all.take(k as int));
                &&& registry@.vars == cur.vars
                &&& type_registry@.custom == cur.custom
                &&& structs_view(stack@) == cur.stack
                &&& structs_view(document.structures@) == cur.structures
                &&& fields_view(document.top_level_fields@) == cur.top_fields
            }),
            registry@.ints.submap_of(old(registry)@.ints),
            type_registry@.primitives == old(type_registry)@.primitives,
            type_registry@.structs == old(type_registry)@.structs,
            document.defines == old(document).defines,
            document.custom_types == old(document).custom_types,
        decreases rest@.len(),
    {
        let ghost before = assemble(start, all.take(k as int));
        let line = rest.remove(0);
        assert(all.take(k + 1).drop_last() =~= all.take(k as int));
        assert(line == all[k as int]);
        match line {
            ConfigLine::Define(name, value) => {
                let expanded = registry.apply_variables(value.as_str());
                registry.register(name.as_str(), expanded.as_str());
            },
            ConfigLine::StructStart { name, with_prefix, .. } => {
                let s = ConfigStructure::new(name.as_str(), with_prefix);
                assert(struct_view(s).fields =~= Seq::<FieldView>::empty());
                assert(struct_view(s).pending_bits =~= Seq::<FieldView>::empty());
                assert(struct_view(s) == new_struct(name@, with_prefix));
                let ghost sv0 = structs_view(stack@);
                stack.push(s);
                assert(structs_view(stack@) =~= sv0.push(struct_view(s)));
                assert(structs_view(stack@) =~= before.stack.push(new_struct(name@, with_prefix)));
            },
            ConfigLine::StructEnd => {
                if stack.len() > 0 {
                    let ghost sv = structs_view(stack@);
                    let finished = stack.pop().unwrap();
                    assert(structs_view(stack@) =~= sv.drop_last());
                    if stack.len() == 0 {
                        let ghost dv = structs_view(document.structures@);
                        document.structures.push(finished);
                        assert(structs_view(document.structures@) =~= dv.push(sv.last()));
                    }
                }
            },
            ConfigLine::Field(field) => {
                if stack.len() > 0 {
                    let ghost sv = structs_view(stack@);
                    let mut top = stack.pop().unwrap();
                    let ghost tv = struct_view(top);
                    let ghost fv = field_view(field);
                    top.add_field(field);
                    assert(top.fields@.map_values(|f: ConfigField| field_view(f)) =~= tv.fields.push(
                        fv,
                    ));
                    assert(struct_view(top) == StructView { fields: tv.fields.push(fv), ..tv });
                    let ghost sv1 = structs_view(stack@);
                    assert(sv1 =~= sv.drop_last());
                    stack.push(top);
                    assert(structs_view(stack@) =~= sv.drop_last().push(
                        StructView { fields: tv.fields.push(fv), ..tv },
                    ));
                } else {
                    let ghost tf = fields_view(document.top_level_fields@);
                    let ghost fv = field_view(field);
                    document.top_level_fields.push(field);
                    assert(fields_view(document.top_level_fields@) =~= tf.push(fv));
                }
            },
            ConfigLine::BitField { name, true_label, false_label, comment } => {
                if stack.len() > 0 {
                    let ghost sv = structs_view(stack@);
                    let ghost bv = bit_field_view(
                        name@,
                        opt_view(true_label),
                        opt_view(false_label),
                        opt_view(comment),
                    );
                    let f = ConfigField::new_bit_field(name.as_str(), true_label, false_label, comment);
                    assert(f.array_sizes@ =~= Seq::<usize>::empty());
                    assert(field_view(f) == bv);
                    let mut top = stack.pop().unwrap();
                    let ghost tv = struct_view(top);
                    top.add_bit_field(f);
                    assert(top.pending_bits@.map_values(|f: ConfigField| field_view(f))
                        =~= tv.pending_bits.push(bv));
                    assert(struct_view(top) == StructView { pending_bits: tv.pending_bits.push(bv), ..tv });
                    let ghost sv1 = structs_view(stack@);
                    assert(sv1 =~= sv.drop_last());
                    stack.push(top);
                    assert(structs_view(stack@) =~= sv.drop_last().push(
                        StructView { pending_bits: tv.pending_bits.push(bv), ..tv },
                    ));
                }
            },
            ConfigLine::CustomType(ct) => {
                type_registry.register_custom(ct.name.as_str(), ct.size);
            },
            _ => {},
        }
        k += 1;
        assert(rest@ =~= all.skip(k as int));
    }
    assert(all.take(k as int) =~= all);
}

} // verus!
