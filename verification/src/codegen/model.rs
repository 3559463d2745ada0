//! Type system of the configuration definitions: sizes, ranges and
//! TunerStudio codes of the C types that fields use.
use vstd::prelude::*;
use crate::codegen::registry::{find_key, keys_unique, lemma_pairs_lookup, pairs_map, put};
use vstd::string::StringExecFns;
use crate::codegen::text::str_eq;

verus! {

/// The primitive C types with their sizes in bytes.
pub open spec fn primitive_map() -> Map<Seq<char>, usize> {
    Map::empty().insert("int8_t"@, 1usize).insert("uint8_t"@, 1usize).insert(
        "int16_t"@,
        2usize,
    ).insert("uint16_t"@, 2usize).insert("int32_t"@, 4usize).insert("int"@, 4usize).insert(
        "uint32_t"@,
        4usize,
    ).insert("float"@, 4usize).insert("boolean"@, 4usize)
}

/// Abstract contents of a [`TypeRegistry`]: sizes of primitive, custom and
/// struct types by name.
pub struct TypeModel {
    /// Primitive types.
    pub primitives: Map<Seq<char>, usize>,
    /// Types from `custom` directives.
    pub custom: Map<Seq<char>, usize>,
    /// Struct types.
    pub structs: Map<Seq<char>, usize>,
}

/// Type registry for looking up type sizes and properties.
#[derive(Debug)]
pub struct TypeRegistry {
    /// Primitive type sizes.
    primitives: Vec<(String, usize)>,
    /// Custom types (from the `custom` directive).
    custom_types: Vec<(String, usize)>,
    /// Struct definitions.
    structs: Vec<(String, usize)>,
}

impl View for TypeRegistry {
    type V = TypeModel;

    closed spec fn view(&self) -> TypeModel {
        TypeModel {
            primitives: pairs_map(self.primitives@),
            custom: pairs_map(self.custom_types@),
            structs: pairs_map(self.structs@),
        }
    }
}

/// Size of type `t`: primitive, then custom, then struct, and 4 for a type
/// that is none of them.
pub open spec fn spec_get_size(m: TypeModel, t: Seq<char>) -> usize {
    if m.primitives.contains_key(t) {
        m.primitives[t]
    } else if m.custom.contains_key(t) {
        m.custom[t]
    } else if m.structs.contains_key(t) {
        m.structs[t]
    } else {
        4
    }
}

/// Value range of the integer C type `t`.
pub open spec fn spec_range(t: Seq<char>) -> Option<(i64, i64)> {
    if t == "int8_t"@ {
        Some((-128i64, 127i64))
    } else if t == "uint8_t"@ {
        Some((0i64, 255i64))
    } else if t == "int16_t"@ {
        Some((-32768i64, 32767i64))
    } else if t == "uint16_t"@ {
        Some((0i64, 65535i64))
    } else if t == "int32_t"@ || t == "int"@ {
        Some((-2147483648i64, 2147483647i64))
    } else if t == "uint32_t"@ {
        Some((0i64, 4294967295i64))
    } else {
        None
    }
}

/// TunerStudio type code of the C type `t`.
pub open spec fn spec_ts_type(t: Seq<char>) -> Option<Seq<char>> {
    if t == "float"@ {
        Some("F32"@)
    } else if t == "uint32_t"@ {
        Some("U32"@)
    } else if t == "int32_t"@ || t == "int"@ {
        Some("S32"@)
    } else if t == "int16_t"@ {
        Some("S16"@)
    } else if t == "uint16_t"@ {
        Some("U16"@)
    } else if t == "int8_t"@ {
        Some("S08"@)
    } else if t == "uint8_t"@ {
        Some("U08"@)
    } else {
        None
    }
}

impl TypeRegistry {
    #[verifier::type_invariant]
    closed spec fn wf(&self) -> bool {
        keys_unique(self.primitives@) && keys_unique(self.custom_types@) && keys_unique(
            self.structs@,
        )
    }

    /// Create a new registry with the primitive C types pre-registered.
    pub fn new() -> (r: Self)
        ensures
            r@.primitives == primitive_map(),
            r@.custom == Map::<Seq<char>, usize>::empty(),
            r@.structs == Map::<Seq<char>, usize>::empty(),
    {
        let mut p: Vec<(String, usize)> = Vec::new();
        let ghost e = p@;
        assert(pairs_map(e) =~= Map::<Seq<char>, usize>::empty());
        put(&mut p, String::from_str("int8_t"), 1);
        put(&mut p, String::from_str("uint8_t"), 1);
        put(&mut p, String::from_str("int16_t"), 2);
        put(&mut p, String::from_str("uint16_t"), 2);
        put(&mut p, String::from_str("int32_t"), 4);
        put(&mut p, String::from_str("int"), 4);
        put(&mut p, String::from_str("uint32_t"), 4);
        put(&mut p, String::from_str("float"), 4);
        put(&mut p, String::from_str("boolean"), 4);
        let r = TypeRegistry { primitives: p, custom_types: Vec::new(), structs: Vec::new() };
        assert(r@.custom =~= Map::<Seq<char>, usize>::empty());
        assert(r@.structs =~= Map::<Seq<char>, usize>::empty());
        r
    }

    /// Size of `ty` in bytes (primitive, custom, then struct types;
    /// 4 for an unknown type).
    pub fn get_size(&self, ty: &str) -> (r: usize)
        ensures
            r == spec_get_size(self@, ty@),
    {
        proof {
            use_type_invariant(self);
        }
        let key = String::from_str(ty);
        if let Some(i) = find_key(&self.primitives, &key) {
            proof {
                lemma_pairs_lookup(self.primitives@, i as int);
            }
            return self.primitives[i].1;
        }
        if let Some(i) = find_key(&self.custom_types, &key) {
            proof {
                lemma_pairs_lookup(self.custom_types@, i as int);
            }
            return self.custom_types[i].1;
        }
        if let Some(i) = find_key(&self.structs, &key) {
            proof {
                lemma_pairs_lookup(self.structs@, i as int);
            }
            return self.structs[i].1;
        }
        4
    }

    /// Register a custom type (replacing an earlier size).
    pub fn register_custom(&mut self, name: &str, size: usize)
        ensures
            final(self)@.custom == old(self)@.custom.insert(name@, size),
            final(self)@.primitives == old(self)@.primitives,
            final(self)@.structs == old(self)@.structs,
    {
        proof {
            use_type_invariant(&*self);
        }
        let mut v = Vec::new();
        std::mem::swap(&mut v, &mut self.custom_types);
        put(&mut v, String::from_str(name), size);
        self.custom_types = v;
    }

    /// Register a struct type (replacing an earlier size).
    pub fn register_struct(&mut self, name: &str, size: usize)
        ensures
            final(self)@.structs == old(self)@.structs.insert(name@, size),
            final(self)@.primitives == old(self)@.primitives,
            final(self)@.custom == old(self)@.custom,
    {
        proof {
            use_type_invariant(&*self);
        }
        let mut v = Vec::new();
        std::mem::swap(&mut v, &mut self.structs);
        put(&mut v, String::from_str(name), size);
        self.structs = v;
    }

    /// Whether `ty` is a primitive.
    pub fn is_primitive(&self, ty: &str) -> (r: bool)
        ensures
            r == self@.primitives.contains_key(ty@),
    {
        proof {
            use_type_invariant(self);
        }
        find_key(&self.primitives, &String::from_str(ty)).is_some()
    }

    /// Whether `ty` is a registered struct.
    pub fn is_struct(&self, ty: &str) -> (r: bool)
        ensures
            r == self@.structs.contains_key(ty@),
    {
        proof {
            use_type_invariant(self);
        }
        find_key(&self.structs, &String::from_str(ty)).is_some()
    }

    /// Min/max values of the integer types.
    pub fn get_range(&self, ty: &str) -> (r: Option<(i64, i64)>)
        ensures
            r == spec_range(ty@),
    {
        if str_eq(ty, "int8_t") {
            Some((-128, 127))
        } else if str_eq(ty, "uint8_t") {
            Some((0, 255))
        } else if str_eq(ty, "int16_t") {
            Some((-32768, 32767))
        } else if str_eq(ty, "uint16_t") {
            Some((0, 65535))
        } else if str_eq(ty, "int32_t") || str_eq(ty, "int") {
            Some((-2147483648, 2147483647))
        } else if str_eq(ty, "uint32_t") {
            Some((0, 4294967295))
        } else {
            None
        }
    }

    /// TunerStudio type code of a C type.
    pub fn to_ts_type(&self, ty: &str) -> (r: Option<&'static str>)
        ensures
            match r {
                Some(code) => spec_ts_type(ty@) == Some(code@),
                None => spec_ts_type(ty@) is None,
            },
    {
        if str_eq(ty, "float") {
            Some("F32")
        } else if str_eq(ty, "uint32_t") {
            Some("U32")
        } else if str_eq(ty, "int32_t") || str_eq(ty, "int") {
            Some("S32")
        } else if str_eq(ty, "int16_t") {
            Some("S16")
        } else if str_eq(ty, "uint16_t") {
            Some("U16")
        } else if str_eq(ty, "int8_t") {
            Some("S08")
        } else if str_eq(ty, "uint8_t") {
            Some("U08")
        } else {
            None
        }
    }
}

/// Custom type definition from a `custom` directive.
#[derive(Debug, Clone, PartialEq)]
pub struct CustomTypeDef {
    /// Type name.
    pub name: String,
    /// Size in bytes.
    pub size: usize,
    /// TunerStudio line definition.
    pub ts_line: String,
}

/// Product of the first `k` array dimensions.
pub open spec fn dims_product(d: Seq<usize>) -> int
    decreases d.len(),
{
    if d.len() == 0 {
        1
    } else {
        dims_product(d.drop_last()) * d.last()
    }
}

/// Every running product of the dimensions fits in a `usize` (as computing
/// the element count needs).
pub open spec fn dims_fit(d: Seq<usize>) -> bool {
    forall|k: int| 0 <= k <= d.len() ==> #[trigger] dims_product(d.take(k)) <= usize::MAX
}

/// A configuration field definition.
#[derive(Debug, Clone, PartialEq)]
pub struct ConfigField {
    /// Field name (identifier).
    pub name: String,
    /// C type name.
    pub c_type: String,
    /// Optional comment text.
    pub comment: Option<String>,
    /// Array dimensions (empty for a scalar).
    pub array_sizes: Vec<usize>,
    /// TunerStudio metadata text (`"units",scale,offset,min,max,digits`).
    pub ts_info_text: Option<String>,
    /// Whether this is a bit field (boolean packed in a 32-bit word).
    pub is_bit_field: bool,
    /// Whether this is a preprocessor directive.
    pub is_directive: bool,
    /// True value label for bit fields.
    pub true_label: Option<String>,
    /// False value label for bit fields.
    pub false_label: Option<String>,
    /// Has autoscale flag.
    pub has_autoscale: bool,
    /// Iterate flag (for TS output expansion).
    pub is_iterate: bool,
    /// Source iterate field name.
    pub from_iterate: Option<String>,
    /// Iterate index.
    pub iterate_index: Option<usize>,
}

impl ConfigField {
    /// Create a new scalar field.
    pub fn new(name: &str, c_type: &str) -> (r: Self)
        ensures
            r.name@ == name@,
            r.c_type@ == c_type@,
            r.comment is None,
            r.array_sizes@.len() == 0,
            r.ts_info_text is None,
            !r.is_bit_field,
            !r.is_directive,
            r.true_label is None,
            r.false_label is None,
            !r.has_autoscale,
            !r.is_iterate,
            r.from_iterate is None,
            r.iterate_index is None,
    {
        ConfigField {
            name: name.to_owned(),
            c_type: c_type.to_owned(),
            comment: None,
            array_sizes: Vec::new(),
            ts_info_text: None,
            is_bit_field: false,
            is_directive: false,
            true_label: None,
            false_label: None,
            has_autoscale: false,
            is_iterate: false,
            from_iterate: None,
            iterate_index: None,
        }
    }

    /// Create a new bit field (of type `boolean`).
    pub fn new_bit_field(
        name: &str,
        true_label: Option<String>,
        false_label: Option<String>,
        comment: Option<String>,
    ) -> (r: Self)
        ensures
            r.name@ == name@,
            r.c_type@ == "boolean"@,
            r.comment == comment,
            r.array_sizes@.len() == 0,
            r.ts_info_text is None,
            r.is_bit_field,
            !r.is_directive,
            r.true_label == true_label,
            r.false_label == false_label,
            !r.has_autoscale,
            !r.is_iterate,
            r.from_iterate is None,
            r.iterate_index is None,
    {
        ConfigField {
            name: name.to_owned(),
            c_type: String::from_str("boolean"),
            comment,
            array_sizes: Vec::new(),
            ts_info_text: None,
            is_bit_field: true,
            is_directive: false,
            true_label,
            false_label,
            has_autoscale: false,
            is_iterate: false,
            from_iterate: None,
            iterate_index: None,
        }
    }

    /// Whether this field is an array.
    pub fn is_array(&self) -> (r: bool)
        ensures
            r == (self.array_sizes@.len() > 0),
    {
        self.array_sizes.len() > 0
    }

    /// Total number of elements (the product of the dimensions; 1 for a
    /// scalar).
    pub fn total_array_size(&self) -> (r: usize)
        requires
            dims_fit(self.array_sizes@),
        ensures
            r == dims_product(self.array_sizes@),
    {
        let d = &self.array_sizes;
        let mut p: usize = 1;
        let mut i: usize = 0;
        assert(d@.take(0) =~= Seq::<usize>::empty());
        while i < d.len()
            invariant
                i <= d@.len(),
                dims_fit(d@),
                p == dims_product(d@.take(i as int)),
            decreases d@.len() - i,
        {
            assert(d@.take(i + 1).drop_last() =~= d@.take(i as int));
            assert(dims_product(d@.take(i + 1)) <= usize::MAX);
            p = p * d[i];
            i += 1;
        }
        assert(d@.take(d@.len() as int) =~= d@);
        p
    }

    /// Size of one element of this field's type, in bytes.
    pub fn type_size(&self, types: &TypeRegistry) -> (r: usize)
        ensures
            r == spec_get_size(types@, self.c_type@),
    {
        types.get_size(self.c_type.as_str())
    }

    /// Total size in bytes, arrays included.
    pub fn total_size(&self, types: &TypeRegistry) -> (r: usize)
        requires
            dims_fit(self.array_sizes@),
            spec_get_size(types@, self.c_type@) * dims_product(self.array_sizes@) <= usize::MAX,
        ensures
            r == spec_get_size(types@, self.c_type@) * dims_product(self.array_sizes@),
    {
        self.type_size(types) * self.total_array_size()
    }
}

/// A configuration structure definition.
#[derive(Debug, Clone, PartialEq)]
pub struct ConfigStructure {
    /// Struct name.
    pub name: String,
    /// Optional comment.
    pub comment: Option<String>,
    /// Whether to add a prefix to field names.
    pub with_prefix: bool,
    /// Parent struct name (for nested structs).
    pub parent: Option<String>,
    /// Fields in this struct.
    pub fields: Vec<ConfigField>,
    /// Bit fields pending packing.
    pub pending_bits: Vec<ConfigField>,
}

/// Sum of the sizes of `fields`.
pub open spec fn fields_size(m: TypeModel, fields: Seq<ConfigField>) -> int
    decreases fields.len(),
{
    if fields.len() == 0 {
        0
    } else {
        fields_size(m, fields.drop_last()) + spec_get_size(m, fields.last().c_type@) * dims_product(
            fields.last().array_sizes@,
        )
    }
}

/// Every running total of the field sizes fits in a `usize`, with room to
/// round up to a multiple of 4.
pub open spec fn fields_fit(m: TypeModel, fields: Seq<ConfigField>) -> bool {
    &&& forall|i: int| 0 <= i < fields.len() ==> dims_fit(#[trigger] fields[i].array_sizes@)
    &&& forall|k: int|
        0 <= k <= fields.len() ==> #[trigger] fields_size(m, fields.take(k)) + 3 <= usize::MAX
}

impl ConfigStructure {
    /// Create a new, empty struct.
    pub fn new(name: &str, with_prefix: bool) -> (r: Self)
        ensures
            r.name@ == name@,
            r.comment is None,
            r.with_prefix == with_prefix,
            r.parent is None,
            r.fields@.len() == 0,
            r.pending_bits@.len() == 0,
    {
        ConfigStructure {
            name: name.to_owned(),
            comment: None,
            with_prefix,
            parent: None,
            fields: Vec::new(),
            pending_bits: Vec::new(),
        }
    }

    /// Add a field to this struct.
    pub fn add_field(&mut self, field: ConfigField)
        ensures
            final(self).fields@ == old(self).fields@.push(field),
            final(self).pending_bits == old(self).pending_bits,
            final(self).name == old(self).name,
            final(self).comment == old(self).comment,
            final(self).with_prefix == old(self).with_prefix,
            final(self).parent == old(self).parent,
    {
        self.fields.push(field);
    }

    /// Add a bit field (held back until the bits are flushed).
    pub fn add_bit_field(&mut self, field: ConfigField)
        ensures
            final(self).pending_bits@ == old(self).pending_bits@.push(field),
            final(self).fields == old(self).fields,
            final(self).name == old(self).name,
            final(self).comment == old(self).comment,
            final(self).with_prefix == old(self).with_prefix,
            final(self).parent == old(self).parent,
    {
        self.pending_bits.push(field);
    }

    /// Move the pending bit fields to the end of the field list.
    pub fn flush_bits(&mut self)
        ensures
            final(self).fields@ == old(self).fields@ + old(self).pending_bits@,
            final(self).pending_bits@.len() == 0,
            final(self).name == old(self).name,
    {
        if self.pending_bits.len() > 0 {
            self.fields.append(&mut self.pending_bits);
        }
    }

    /// Total struct size: the field sizes added up and rounded up to a
    /// multiple of 4.
    pub fn total_size(&self, types: &TypeRegistry) -> (r: usize)
        requires
            fields_fit(types@, self.fields@),
        ensures
            r == (fields_size(types@, self.fields@) + 3) / 4 * 4,
    {
        let f = &self.fields;
        let mut size: usize = 0;
        let mut i: usize = 0;
        assert(f@.take(0) =~= Seq::<ConfigField>::empty());
        while i < f.len()
            invariant
                i <= f@.len(),
                fields_fit(types@, f@),
                size == fields_size(types@, f@.take(i as int)),
            decreases f@.len() - i,
        {
            assert(f@.take(i + 1).drop_last() =~= f@.take(i as int));
            assert(fields_size(types@, f@.take(i + 1)) + 3 <= usize::MAX);
            assert(dims_fit(f@[i as int].array_sizes@));
            size = size + f[i].total_size(types);
            i += 1;
        }
        assert(f@.take(f@.len() as int) =~= f@);
        let padded = size + 3;
        let r = padded & !3usize;
        assert(r == padded / 4 * 4) by (bit_vector)
            requires
                r == padded & !3usize,
        ;
        r
    }

    /// Whether every running total of the field sizes (and its rounding up
    /// to a multiple of 4) fits in a `usize`, as [`Self::total_size`] needs.
    pub fn sizes_fit(&self, types: &TypeRegistry) -> (r: bool)
        ensures
            r == fields_fit(types@, self.fields@),
    {
        let f = &self.fields;
        let mut size: usize = 0;
        let mut i: usize = 0;
        assert(f@.take(0) =~= Seq::<ConfigField>::empty());
        while i < f.len()
            invariant
                f@ == self.fields@,
                i <= f@.len(),
                size == fields_size(types@, f@.take(i as int)),
                size + 3 <= usize::MAX,
                forall|j: int| 0 <= j < i ==> dims_fit(#[trigger] f@[j].array_sizes@),
                forall|k: int|
                    0 <= k <= i ==> #[trigger] fields_size(types@, f@.take(k)) + 3 <= usize::MAX,
            decreases f@.len() - i,
        {
            assert(f@.take(i + 1).drop_last() =~= f@.take(i as int));
            let field = &f[i];
            let d = &field.array_sizes;
            let mut p: usize = 1;
            let mut j: usize = 0;
            assert(d@.take(0) =~= Seq::<usize>::empty());
            while j < d.len()
                invariant
                    i < f@.len(),
                    f@ == self.fields@,
                    d@ == f@[i as int].array_sizes@,
                    j <= d@.len(),
                    p == dims_product(d@.take(j as int)),
                    forall|k: int| 0 <= k <= j ==> #[trigger] dims_product(d@.take(k)) <= usize::MAX,
                decreases d@.len() - j,
            {
                assert(d@.take(j + 1).drop_last() =~= d@.take(j as int));
                match p.checked_mul(d[j]) {
                    Some(x) => {
                        p = x;
                    },
                    None => {
                        proof {
                            assert(!(dims_product(d@.take(j + 1)) <= usize::MAX));
                            assert(f@[i as int].array_sizes@ == d@);
                            assert(!dims_fit(f@[i as int].array_sizes@));
                            assert(!fields_fit(types@, f@));
                        }
                        return false;
                    },
                }
                j += 1;
            }
            assert(d@.take(d@.len() as int) =~= d@);
            let elem = field.type_size(types);
            let total = match elem.checked_mul(p) {
                Some(t) => t,
                None => {
                    proof {
                        assert(f@.take(i + 1).last() == f@[i as int]);
                        assert(fields_size(types@, f@.take(i + 1)) > usize::MAX);
                        assert(!fields_fit(types@, f@));
                    }
                    return false;
                },
            };
            if total > usize::MAX - 3 - size {
                proof {
                    assert(f@.take(i + 1).last() == f@[i as int]);
                    assert(fields_size(types@, f@.take(i + 1)) + 3 > usize::MAX);
                    assert(!fields_fit(types@, f@));
                }
                return false;
            }
            size = size + total;
            i += 1;
        }
        assert(f@.take(f@.len() as int) =~= f@);
        true
    }
}

/// Parsed document (an entire config file).

#[derive(Debug)]
pub struct ConfigDocument {
    /// Top-level defines.
    pub defines: Vec<(String, String)>,
    /// All structures.
    pub structures: Vec<ConfigStructure>,
    /// Top-level fields outside any struct.
    pub top_level_fields: Vec<ConfigField>,
    /// Custom type definitions.
    pub custom_types: Vec<CustomTypeDef>,
}

impl ConfigDocument {
    /// An empty document.
    pub fn new() -> (r: Self)
        ensures
            r.defines@.len() == 0,
            r.structures@.len() == 0,
            r.top_level_fields@.len() == 0,
            r.custom_types@.len() == 0,
    {
        ConfigDocument {
            defines: Vec::new(),
            structures: Vec::new(),
            top_level_fields: Vec::new(),
            custom_types: Vec::new(),
        }
    }
}

/// A registration on a [`TypeRegistry`], for stating what a history of
/// registrations does.
pub enum TypeRegistration {
    /// `register_custom(name, size)`.
    Custom(Seq<char>, usize),
    /// `register_struct(name, size)`.
    Struct(Seq<char>, usize),
}

/// The type model after one registration, as the methods state it.
pub open spec fn spec_type_call(m: TypeModel, c: TypeRegistration) -> TypeModel {
    match c {
        TypeRegistration::Custom(n, size) => TypeModel { custom: m.custom.insert(n, size), ..m },
        TypeRegistration::Struct(n, size) => TypeModel { structs: m.structs.insert(n, size), ..m },
    }
}

/// The type model after the registrations `cs`, in order.
pub open spec fn spec_type_run(m: TypeModel, cs: Seq<TypeRegistration>) -> TypeModel
    decreases cs.len(),
{
    if cs.len() == 0 {
        m
    } else {
        spec_type_call(spec_type_run(m, cs.drop_last()), cs.last())
    }
}

/// The size of the last custom (or, with `structs`, struct) registration
/// of `t` in `cs`, if any.
pub open spec fn last_size(cs: Seq<TypeRegistration>, structs: bool, t: Seq<char>) -> Option<usize>
    decreases cs.len(),
{
    if cs.len() == 0 {
        None
    } else {
        match cs.last() {
            TypeRegistration::Custom(n, size) => if !structs && n == t {
                Some(size)
            } else {
                last_size(cs.drop_last(), structs, t)
            },
            TypeRegistration::Struct(n, size) => if structs && n == t {
                Some(size)
            } else {
                last_size(cs.drop_last(), structs, t)
            },
        }
    }
}

/// The model of a new registry.
pub open spec fn new_type_model() -> TypeModel {
    TypeModel {
        primitives: primitive_map(),
        custom: Map::<Seq<char>, usize>::empty(),
        structs: Map::<Seq<char>, usize>::empty(),
    }
}

/// Sizes over any history of registrations on a new registry: a primitive
/// keeps its size whatever is registered; otherwise the last custom
/// registration of the name wins, then the last struct registration, and an
/// unknown type takes 4 bytes.
pub proof fn lemma_type_sizes_after(cs: Seq<TypeRegistration>, t: Seq<char>)
    ensures
        spec_get_size(spec_type_run(new_type_model(), cs), t) == if primitive_map().contains_key(t) {
            primitive_map()[t]
        } else {
            match last_size(cs, false, t) {
                Some(size) => size,
                None => match last_size(cs, true, t) {
                    Some(size) => size,
                    None => 4usize,
                },
            }
        },
{
    lemma_type_run(cs, t);
}

proof fn lemma_type_run(cs: Seq<TypeRegistration>, t: Seq<char>)
    ensures
        ({
            let m = spec_type_run(new_type_model(), cs);
            &&& m.primitives == primitive_map()
            &&& m.custom.contains_key(t) == (last_size(cs, false, t) is Some)
            &&& last_size(cs, false, t) matches Some(size) ==> m.custom[t] == size
            &&& m.structs.contains_key(t) == (last_size(cs, true, t) is Some)
            &&& last_size(cs, true, t) matches Some(size) ==> m.structs[t] == size
        }),
    decreases cs.len(),
{
    if cs.len() > 0 {
        lemma_type_run(cs.drop_last(), t);
    }
}

/// The width in bits that a TunerStudio type code names (`U16` → 16).
pub open spec fn ts_width(code: Seq<char>) -> int {
    (code[1] as int - '0' as int) * 10 + (code[2] as int - '0' as int)
}

/// A C type with a TunerStudio code is a primitive whose size is the code's
/// width in bytes.
pub proof fn lemma_ts_type_width(t: Seq<char>)
    ensures
        spec_ts_type(t) matches Some(code) ==> code.len() == 3 && primitive_map().contains_key(t)
            && ts_width(code) / 8 == primitive_map()[t],
{
    reveal_strlit("int8_t");
    reveal_strlit("uint8_t");
    reveal_strlit("int16_t");
    reveal_strlit("uint16_t");
    reveal_strlit("int32_t");
    reveal_strlit("int");
    reveal_strlit("uint32_t");
    reveal_strlit("float");
    reveal_strlit("boolean");
    reveal_strlit("F32");
    reveal_strlit("U32");
    reveal_strlit("S32");
    reveal_strlit("S16");
    reveal_strlit("U16");
    reveal_strlit("S08");
    reveal_strlit("U08");
    let pm = primitive_map();
    let names = seq![
        "int8_t"@,
        "uint8_t"@,
        "int16_t"@,
        "uint16_t"@,
        "int32_t"@,
        "int"@,
        "uint32_t"@,
        "float"@,
        "boolean"@,
    ];
    assert forall|i: int, j: int| 0 <= i < j < 9 implies #[trigger] names[i] != #[trigger] names[j] by {
        if names[i].len() == names[j].len() {
            let k: int = if names[i][0] != names[j][0] {
                0
            } else if names[i][1] != names[j][1] {
                1
            } else if names[i][2] != names[j][2] {
                2
            } else if names[i][3] != names[j][3] {
                3
            } else {
                4
            };
            assert(names[i][k] != names[j][k]);
        }
    }
    assert(names[0] != names[1] && names[0] != names[2] && names[0] != names[3] && names[0] != names[4]
        && names[0] != names[5] && names[0] != names[6] && names[0] != names[7] && names[0] != names[8]);
    assert(names[1] != names[2] && names[1] != names[3] && names[1] != names[4] && names[1] != names[5]
        && names[1] != names[6] && names[1] != names[7] && names[1] != names[8]);
    assert(names[2] != names[3] && names[2] != names[4] && names[2] != names[5] && names[2] != names[6]
        && names[2] != names[7] && names[2] != names[8]);
    assert(names[3] != names[4] && names[3] != names[5] && names[3] != names[6] && names[3] != names[7]
        && names[3] != names[8]);
    assert(names[4] != names[5] && names[4] != names[6] && names[4] != names[7] && names[4] != names[8]);
    assert(names[5] != names[6] && names[5] != names[7] && names[5] != names[8]);
    assert(names[6] != names[7] && names[6] != names[8]);
    assert(names[7] != names[8]);
}

} // verus!
