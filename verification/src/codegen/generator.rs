//! Text generators for C headers, TunerStudio INI constants and the Java
//! variable registry; writing the text to files is left to the caller.
use vstd::prelude::*;
use vstd::string::StringExecFns;
use crate::codegen::model::{
    ConfigField, ConfigStructure, TypeRegistry, dims_fit, dims_product, fields_fit, fields_size,
    spec_get_size, spec_ts_type,
};
use crate::codegen::registry::VariableRegistry;
use crate::codegen::parser::prefix_at;
use crate::codegen::text::{
    chars_of, decimal_digits, lowercase, parse_i64, spec_parse_i64, to_uppercase, uppercase,
    usize_text,
};
use vstd::string::StrSliceExecFns;

verus! {

/// The banner written at the start of a C header generated from `source`.
pub open spec fn header_text(source: Seq<char>) -> Seq<char> {
    "//\n"@ + "// Generated automatically from "@ + source + "\n"@ + "// by rusefi-codegen\n"@
        + "//\n\n"@ + "#pragma once\n"@ + "#include \"rusefi_types.h\"\n\n"@
}

/// Dimensions joined as `A][B][C`.
pub open spec fn dims_text(d: Seq<usize>) -> Seq<char>
    decreases d.len(),
{
    if d.len() == 0 {
        Seq::empty()
    } else if d.len() == 1 {
        decimal_digits(d[0] as nat)
    } else {
        dims_text(d.drop_last()) + "]["@ + decimal_digits(d.last() as nat)
    }
}

/// The lines declaring field `f` in a C struct: its comment, then
/// `TYPE NAME[A][B];` (or `TYPE NAME;` for a scalar).
pub open spec fn field_text(f: ConfigField) -> Seq<char> {
    (match f.comment {
        Some(c) => "    // "@ + c@ + "\n"@,
        None => Seq::empty(),
    }) + if f.array_sizes@.len() > 0 {
        "    "@ + f.c_type@ + " "@ + f.name@ + "["@ + dims_text(f.array_sizes@) + "];\n"@
    } else {
        "    "@ + f.c_type@ + " "@ + f.name@ + ";\n"@
    }
}

/// The declarations of `fields`, in order.
pub open spec fn fields_text(fields: Seq<ConfigField>) -> Seq<char>
    decreases fields.len(),
{
    if fields.len() == 0 {
        Seq::empty()
    } else {
        fields_text(fields.drop_last()) + field_text(fields.last())
    }
}

/// The packed C struct definition of `s`.
pub open spec fn struct_text(s: ConfigStructure) -> Seq<char> {
    (match s.comment {
        Some(c) => "// "@ + c@ + "\n"@,
        None => Seq::empty(),
    }) + "#pragma pack(push, 1)\n"@ + "struct "@ + s.name@ + " {\n"@ + fields_text(s.fields@)
        + "};\n"@ + "#pragma pack(pop)\n\n"@
}

/// The `#define` lines for `keys`, upper-cased, each with its value when the
/// variable is found.
pub open spec fn defines_text(vars: Map<Seq<char>, Seq<char>>, keys: Seq<Seq<char>>) -> Seq<char>
    decreases keys.len(),
{
    if keys.len() == 0 {
        Seq::empty()
    } else {
        let k = keys.last();
        defines_text(vars, keys.drop_last()) + if vars.contains_key(lowercase(k)) {
            "#define "@ + uppercase(k) + " "@ + vars[lowercase(k)] + "\n"@
        } else {
            Seq::empty()
        }
    }
}

/// C header file generator.
pub struct CHeaderGenerator {
    output: String,
    registry: VariableRegistry,
    need_zero_init: bool,
    with_defines: bool,
}

impl CHeaderGenerator {
    /// The text generated so far.
    pub closed spec fn spec_output(&self) -> Seq<char> {
        self.output@
    }

    /// The variables known to the generator.
    pub closed spec fn spec_registry(&self) -> VariableRegistry {
        self.registry
    }

    /// Whether struct members are zero-initialised.
    pub closed spec fn spec_zero_init(&self) -> bool {
        self.need_zero_init
    }

    /// Whether the `#define`s are written at the end.
    pub closed spec fn spec_with_defines(&self) -> bool {
        self.with_defines
    }

    /// Create a new C header generator (with the defines written, no
    /// zero-initialisation).
    pub fn new(registry: VariableRegistry) -> (r: Self)
        ensures
            r.spec_output().len() == 0,
            r.spec_registry() == registry,
            !r.spec_zero_init(),
            r.spec_with_defines(),
    {
        CHeaderGenerator { output: String::new(), registry, need_zero_init: false, with_defines: true }
    }

    /// Set the zero-initialisation flag.
    pub fn set_zero_init(&mut self, value: bool)
        ensures
            final(self).spec_zero_init() == value,
            final(self).spec_with_defines() == old(self).spec_with_defines(),
            final(self).spec_output() == old(self).spec_output(),
            final(self).spec_registry() == old(self).spec_registry(),
    {
        self.need_zero_init = value;
    }

    /// Set whether the `#define`s are written.
    pub fn set_with_defines(&mut self, value: bool)
        ensures
            final(self).spec_with_defines() == value,
            final(self).spec_zero_init() == old(self).spec_zero_init(),
            final(self).spec_output() == old(self).spec_output(),
            final(self).spec_registry() == old(self).spec_registry(),
    {
        self.with_defines = value;
    }

    /// Start a new file: the banner naming `source_file`.
    pub fn start_file(&mut self, source_file: &str)
        ensures
            final(self).spec_output() == old(self).spec_output() + header_text(source_file@),
            final(self).spec_registry() == old(self).spec_registry(),
            final(self).spec_zero_init() == old(self).spec_zero_init(),
            final(self).spec_with_defines() == old(self).spec_with_defines(),
    {
        let ghost before = self.output@;
        self.output.append("//\n");
        self.output.append("// Generated automatically from ");
        self.output.append(source_file);
        self.output.append("\n");
        self.output.append("// by rusefi-codegen\n");
        self.output.append("//\n\n");
        self.output.append("#pragma once\n");
        self.output.append("#include \"rusefi_types.h\"\n\n");
        assert(self.output@ =~= before + header_text(source_file@));
    }

    /// Write the declaration of one field.
    #[verifier::rlimit(50)]
    #[verifier::spinoff_prover]
    fn write_field(&mut self, field: &ConfigField)
        ensures
            final(self).output@ == old(self).output@ + field_text(*field),
            final(self).registry == old(self).registry,
            final(self).need_zero_init == old(self).need_zero_init,
            final(self).with_defines == old(self).with_defines,
    {
        let ghost before = self.output@;
        if let Some(comment) = &field.comment {
            self.output.append("    // ");
            self.output.append(comment.as_str());
            self.output.append("\n");
        }
        let ghost mid = self.output@;
        self.output.append("    ");
        self.output.append(field.c_type.as_str());
        self.output.append(" ");
        self.output.append(field.name.as_str());
        if field.array_sizes.len() > 0 {
            self.output.append("[");
            let d = &field.array_sizes;
            let mut i: usize = 0;
            while i < d.len()
                invariant
                    0 < d@.len(),
                    i <= d@.len(),
                    self.output@ == mid + "    "@ + field.c_type@ + " "@ + field.name@ + "["@
                        + dims_text(d@.take(i as int)),
                    self.registry == old(self).registry,
                    self.need_zero_init == old(self).need_zero_init,
                    self.with_defines == old(self).with_defines,
                decreases d@.len() - i,
            {
                assert(d@.take(i + 1).drop_last() =~= d@.take(i as int));
                if i > 0 {
                    self.output.append("][");
                }
                self.output.append(usize_text(d[i]).as_str());
                proof {
                    if i == 0 {
                        assert(d@.take(0) =~= Seq::<usize>::empty());
                    }
                }
                i += 1;
            }
            assert(d@.take(d@.len() as int) =~= d@);
            self.output.append("];\n");
        } else {
            self.output.append(";\n");
        }
        assert(self.output@ =~= before + field_text(*field));
    }

    /// Write the definition of `structure` and register its size (rounded up
    /// to a multiple of 4) as `<name>_size`.
    pub fn handle_struct(&mut self, structure: &ConfigStructure, types: &TypeRegistry)
        requires
            fields_fit(types@, structure.fields@),
        ensures
            final(self).spec_output() == old(self).spec_output() + struct_text(*structure),
            final(self).spec_registry()@.vars == old(self).spec_registry()@.vars.insert(
                lowercase(structure.name@ + "_size"@),
                decimal_digits(((fields_size(types@, structure.fields@) + 3) / 4 * 4) as nat),
            ),
            final(self).spec_zero_init() == old(self).spec_zero_init(),
            final(self).spec_with_defines() == old(self).spec_with_defines(),
    {
        let ghost before = self.output@;
        if let Some(comment) = &structure.comment {
            self.output.append("// ");
            self.output.append(comment.as_str());
            self.output.append("\n");
        }
        self.output.append("#pragma pack(push, 1)\n");
        self.output.append("struct ");
        self.output.append(structure.name.as_str());
        self.output.append(" {\n");
        let ghost mid = self.output@;
        let f = &structure.fields;
        let mut i: usize = 0;
        assert(f@.take(0) =~= Seq::<ConfigField>::empty());
        while i < f.len()
            invariant
                i <= f@.len(),
                self.output@ == mid + fields_text(f@.take(i as int)),
                self.registry == old(self).registry,
                self.need_zero_init == old(self).need_zero_init,
                self.with_defines == old(self).with_defines,
            decreases f@.len() - i,
        {
            assert(f@.take(i + 1).drop_last() =~= f@.take(i as int));
            self.write_field(&f[i]);
            i += 1;
        }
        assert(f@.take(f@.len() as int) =~= f@);
        self.output.append("};\n");
        self.output.append("#pragma pack(pop)\n\n");
        assert(self.output@ =~= before + struct_text(*structure));
        let size = structure.total_size(types);
        let mut key = structure.name.clone();
        key.append("_size");
        self.registry.register(key.as_str(), usize_text(size).as_str());
    }

    /// Finish the text: the `#define` section (when enabled), then the end
    /// marker.
    pub fn end_output(&mut self)
        ensures
            final(self).spec_output() == old(self).spec_output() + (if old(self).spec_with_defines() {
                "\n// Defines section\n"@ + defines_text(
                    old(self).spec_registry()@.vars,
                    old(self).spec_registry().key_order(),
                )
            } else {
                Seq::empty()
            }) + "\n// end\n"@,
            final(self).spec_registry() == old(self).spec_registry(),
    {
        let ghost before = self.output@;
        if self.with_defines {
            self.output.append("\n// Defines section\n");
            let ghost mid = self.output@;
            let keys = self.registry.keys();
            let ghost ks = keys@.map_values(|k: String| k@);
            let mut i: usize = 0;
            assert(ks.take(0) =~= Seq::<Seq<char>>::empty());
            while i < keys.len()
                invariant
                    i <= keys@.len(),
                    ks == keys@.map_values(|k: String| k@),
                    self.output@ == mid + defines_text(self.registry@.vars, ks.take(i as int)),
                    self.registry == old(self).registry,
                decreases keys@.len() - i,
            {
                assert(ks.take(i + 1).drop_last() =~= ks.take(i as int));
                let key = keys[i].as_str();
                if let Some(value) = self.registry.get(key) {
                    self.output.append("#define ");
                    self.output.append(to_uppercase(key).as_str());
                    self.output.append(" ");
                    self.output.append(value);
                    self.output.append("\n");
                }
                i += 1;
            }
            assert(ks.take(keys@.len() as int) =~= ks);
        }
        self.output.append("\n// end\n");
        assert(self.output@ =~= before + (if old(self).with_defines {
            "\n// Defines section\n"@ + defines_text(
                old(self).registry@.vars,
                old(self).registry.key_order(),
            )
        } else {
            Seq::empty()
        }) + "\n// end\n"@);
    }

    /// The generated text.
    pub fn output(&self) -> (r: &str)
        ensures
            r@ == self.spec_output(),
    {
        self.output.as_str()
    }
}

/// The TunerStudio metadata written for a field: its rendered info line,
/// or `default` when it has none.
pub open spec fn ts_tail(info: Option<Seq<char>>, default: Seq<char>) -> Seq<char> {
    match info {
        Some(t) => t + "\n"@,
        None => default,
    }
}

/// The constant lines for the first `n` elements of an array field named
/// `name`: element `i` (from 1) at `base + (i - 1) * es`.
pub open spec fn array_lines(
    name: Seq<char>,
    ts_type: Seq<char>,
    base: nat,
    es: nat,
    n: nat,
    tail: Seq<char>,
) -> Seq<char>
    decreases n,
{
    if n == 0 {
        Seq::empty()
    } else {
        array_lines(name, ts_type, base, es, (n - 1) as nat, tail) + "    "@ + name + decimal_digits(n)
            + " = "@ + ts_type + ", "@ + decimal_digits((base + (n - 1) * es) as nat) + ", "@ + tail
    }
}

/// Default metadata of a scalar field.
pub open spec fn scalar_default() -> Seq<char> {
    "\"units\", 1, 0, 1, 100, 0\n"@
}

/// Default metadata of an array element.
pub open spec fn array_default() -> Seq<char> {
    "\"units\", 1, 0, 0, 100, 0\n"@
}

/// First position at or after `i` where `p` occurs in `s`.
pub open spec fn find_from(s: Seq<char>, p: Seq<char>, i: nat) -> Option<nat>
    decreases s.len() - i,
{
    if i + p.len() > s.len() {
        None
    } else if s.subrange(i as int, (i + p.len()) as int) == p {
        Some(i)
    } else if i < s.len() {
        find_from(s, p, i + 1)
    } else {
        None
    }
}

/// Position of the last `\n` in `s`.
pub open spec fn last_nl(s: Seq<char>) -> Option<nat>
    decreases s.len(),
{
    if s.len() == 0 {
        None
    } else if s.last() == '\n' {
        Some((s.len() - 1) as nat)
    } else {
        last_nl(s.drop_last())
    }
}

/// `constants` merged into `template` (see
/// [`TsIniGenerator::merge_with_template`]).
pub open spec fn merged_text(template: Seq<char>, constants: Seq<char>) -> Seq<char> {
    let start = match find_from(template, "CONFIG_DEFINITION_START"@, 0) {
        Some(p) => match last_nl(template.take(p as int)) {
            Some(n) => Some(n + 1),
            None => Some(0nat),
        },
        None => None,
    };
    let end = match find_from(template, "CONFIG_DEFINITION_END"@, 0) {
        Some(p) => Some(p + "CONFIG_DEFINITION_END"@.len()),
        None => None,
    };
    match (start, end) {
        (Some(a), Some(b)) => template.take(a as int) + "; "@ + "CONFIG_DEFINITION_START"@ + "\n"@
            + constants + "\n; "@ + "CONFIG_DEFINITION_END"@ + "\n"@ + template.skip(b as int),
        _ => template + "\n\n[Constants]\n"@ + constants,
    }
}

/// First position of the text `p` in `v`.
fn find_text(v: &[char], p: &str) -> (r: Option<usize>)
    ensures
        match find_from(v@, p@, 0) {
            Some(i) => r == Some(i as usize) && i + p@.len() <= v@.len(),
            None => r is None,
        },
        r matches Some(x) ==> x + p@.len() <= v@.len(),
{
    let m = p.unicode_len();
    if m == 0 {
        assert(v@.subrange(0, 0) =~= p@);
        return Some(0);
    }
    let mut i: usize = 0;
    while i <= v.len() && m <= v.len() - i
        invariant
            m == p@.len(),
            m > 0,
            v@.len() == v.len(),
            find_from(v@, p@, 0) == find_from(v@, p@, i as nat),
        decreases v@.len() + 1 - i,
    {
        if prefix_at(v, i, p) {
            assert(v@.skip(i as int).take(m as int) =~= v@.subrange(i as int, i + m));
            return Some(i);
        }
        assert(v@.skip(i as int).take(m as int) =~= v@.subrange(i as int, i + m));
        i += 1;
    }
    None
}

/// Position of the last `\n` before `end` in `v`.
fn last_newline(v: &[char], end: usize) -> (r: Option<usize>)
    requires
        end <= v@.len(),
    ensures
        match last_nl(v@.take(end as int)) {
            Some(n) => r == Some(n as usize) && n < end,
            None => r is None,
        },
{
    let mut j = end;
    while j > 0 && v[j - 1] != '\n'
        invariant
            j <= end <= v@.len(),
            last_nl(v@.take(end as int)) == last_nl(v@.take(j as int)),
        decreases j,
    {
        assert(v@.take(j as int).drop_last() =~= v@.take(j - 1));
        j -= 1;
    }
    if j == 0 {
        assert(v@.take(0) =~= Seq::<char>::empty());
        None
    } else {
        Some(j - 1)
    }
}

/// TunerStudio INI generator.
pub struct TsIniGenerator {
    constants: String,
    registry: VariableRegistry,
    total_offset: usize,
}

impl TsIniGenerator {
    /// The `[Constants]` text generated so far.
    pub closed spec fn spec_constants(&self) -> Seq<char> {
        self.constants@
    }

    /// Offset of the next field.
    pub closed spec fn spec_offset(&self) -> usize {
        self.total_offset
    }

    /// The variables known to the generator.
    pub closed spec fn spec_registry(&self) -> VariableRegistry {
        self.registry
    }

    /// Create a new TS INI generator.
    pub fn new(registry: VariableRegistry) -> (r: Self)
        ensures
            r.spec_constants().len() == 0,
            r.spec_offset() == 0,
            r.spec_registry() == registry,
    {
        TsIniGenerator { constants: String::new(), registry, total_offset: 0 }
    }

    /// Start the constants section of page `page`.
    pub fn start_constants(&mut self, page: usize)
        ensures
            final(self).spec_constants() == old(self).spec_constants() + "page = "@ + decimal_digits(
                page as nat,
            ) + "\n"@,
            final(self).spec_offset() == old(self).spec_offset(),
            final(self).spec_registry() == old(self).spec_registry(),
    {
        self.constants.append("page = ");
        self.constants.append(usize_text(page).as_str());
        self.constants.append("\n");
    }

    /// Write the constant line(s) of `field`: bit fields and directives are
    /// skipped; a scalar takes its type's size; an array is expanded into one
    /// constant per element (`name1`, `name2`, …). `ts_line` is the field's
    /// rendered TunerStudio metadata (`"units", scale, offset, min, max,
    /// digits`), if it has any. A C type without a TunerStudio code is an
    /// error.
    #[verifier::rlimit(50)]
    #[verifier::spinoff_prover]
    pub fn handle_field(&mut self, field: &ConfigField, ts_line: Option<&str>, types: &TypeRegistry) -> (r:
        Result<(), String>)
        requires
            field.array_sizes@.len() > 0 ==> dims_fit(field.array_sizes@),
            field.array_sizes@.len() > 0 ==> old(self).spec_offset() + spec_get_size(
                types@,
                field.c_type@,
            ) * dims_product(field.array_sizes@) <= usize::MAX,
            field.array_sizes@.len() == 0 ==> old(self).spec_offset() + spec_get_size(
                types@,
                field.c_type@,
            ) <= usize::MAX,
        ensures
            final(self).spec_registry() == old(self).spec_registry(),
            field.is_bit_field || field.is_directive ==> r is Ok && final(self).spec_constants()
                == old(self).spec_constants() && final(self).spec_offset()
                == old(self).spec_offset(),
            !(field.is_bit_field || field.is_directive) ==> match spec_ts_type(field.c_type@) {
                None => r matches Err(e) && e@ == "Unknown type for TS: "@ + field.c_type@
                    && final(self).spec_constants() == old(self).spec_constants()
                    && final(self).spec_offset() == old(self).spec_offset(),
                Some(ts_type) => r is Ok && if field.array_sizes@.len() > 0 {
                    let es = spec_get_size(types@, field.c_type@);
                    let n = dims_product(field.array_sizes@);
                    &&& final(self).spec_constants() == old(self).spec_constants() + array_lines(
                        field.name@,
                        ts_type,
                        old(self).spec_offset() as nat,
                        es as nat,
                        n as nat,
                        ts_tail(
                            match ts_line {
                                Some(t) => Some(t@),
                                None => None,
                            },
                            array_default(),
                        ),
                    )
                    &&& final(self).spec_offset() == old(self).spec_offset() + es * n
                } else {
                    &&& final(self).spec_constants() == old(self).spec_constants() + "    "@
                        + field.name@ + " = "@ + ts_type + ", "@ + decimal_digits(
                        old(self).spec_offset() as nat,
                    ) + ", "@ + ts_tail(
                        match ts_line {
                            Some(t) => Some(t@),
                            None => None,
                        },
                        scalar_default(),
                    )
                    &&& final(self).spec_offset() == old(self).spec_offset() + spec_get_size(
                        types@,
                        field.c_type@,
                    )
                },
            },
    {
        if field.is_bit_field || field.is_directive {
            return Ok(());
        }
        let ts_type = match types.to_ts_type(field.c_type.as_str()) {
            Some(t) => t,
            None => {
                let mut e = String::from_str("Unknown type for TS: ");
                e.append(field.c_type.as_str());
                return Err(e);
            },
        };
        let ghost info = match ts_line {
            Some(t) => Some(t@),
            None => None,
        };
        if field.is_array() {
            let es = field.type_size(types);
            let n = field.total_array_size();
            let base = self.total_offset;
            let ghost before = self.constants@;
            let ghost tail = ts_tail(info, array_default());
            let mut i: usize = 0;
            while i < n
                invariant
                    i <= n,
                    base == old(self).total_offset,
                    base + es * n <= usize::MAX,
                    self.constants@ == before + array_lines(
                        field.name@,
                        ts_type@,
                        base as nat,
                        es as nat,
                        i as nat,
                        tail,
                    ),
                    self.total_offset == base,
                    self.registry == old(self).registry,
                    tail == ts_tail(info, array_default()),
                    info == (match ts_line {
                        Some(t) => Some(t@),
                        None => None::<Seq<char>>,
                    }),
                decreases n - i,
            {
                assert(i * es <= n * es) by (nonlinear_arith)
                    requires
                        i < n,
                ;
                assert(es * n == n * es) by (nonlinear_arith);
                let offset = base + i * es;
                self.constants.append("    ");
                self.constants.append(field.name.as_str());
                self.constants.append(usize_text(i + 1).as_str());
                self.constants.append(" = ");
                self.constants.append(ts_type);
                self.constants.append(", ");
                self.constants.append(usize_text(offset).as_str());
                self.constants.append(", ");
                match ts_line {
                    Some(t) => {
                        self.constants.append(t);
                        self.constants.append("\n");
                    },
                    None => {
                        self.constants.append("\"units\", 1, 0, 0, 100, 0\n");
                    },
                }
                i += 1;
            }
            self.total_offset = base + es * n;
        } else {
            let ghost before = self.constants@;
            self.constants.append("    ");
            self.constants.append(field.name.as_str());
            self.constants.append(" = ");
            self.constants.append(ts_type);
            self.constants.append(", ");
            self.constants.append(usize_text(self.total_offset).as_str());
            self.constants.append(", ");
            match ts_line {
                Some(t) => {
                    self.constants.append(t);
                    self.constants.append("\n");
                },
                None => {
                    self.constants.append("\"units\", 1, 0, 1, 100, 0\n");
                },
            }
            let es = field.type_size(types);
            self.total_offset = self.total_offset + es;
        }
        Ok(())
    }

    /// The INI text without a template.
    pub fn generate_standalone(&self) -> (r: String)
        ensures
            r@ == "; Generated by rusefi-codegen\n\n"@ + "[Constants]\n"@ + self.spec_constants(),
    {
        let mut out = String::from_str("; Generated by rusefi-codegen\n\n");
        out.append("[Constants]\n");
        out.append(self.constants.as_str());
        out
    }

    /// The constants merged into `template`: the lines from the one holding
    /// `CONFIG_DEFINITION_START` up to the end of `CONFIG_DEFINITION_END` are
    /// replaced by the constants between the two markers; without both
    /// markers the constants are appended in a `[Constants]` section.
    pub fn merge_with_template(&self, template: &str) -> (r: String)
        ensures
            r@ == merged_text(template@, self.spec_constants()),
    {
        let v = chars_of(template);
        let start_marker = "CONFIG_DEFINITION_START";
        let end_marker = "CONFIG_DEFINITION_END";
        let start_pos = match find_text(v.as_slice(), start_marker) {
            Some(p) => match last_newline(v.as_slice(), p) {
                Some(n) => Some(n + 1),
                None => Some(0),
            },
            None => None,
        };
        let em = end_marker.unicode_len();
        let total = v.len();
        let end_pos = match find_text(v.as_slice(), end_marker) {
            Some(p) => Some(p + em),
            None => None,
        };
        match (start_pos, end_pos) {
            (Some(start), Some(end)) => {
                let mut out = String::new();
                out.append(template.substring_char(0, start));
                out.append("; ");
                out.append(start_marker);
                out.append("\n");
                out.append(self.constants.as_str());
                out.append("\n; ");
                out.append(end_marker);
                out.append("\n");
                out.append(template.substring_char(end, v.len()));
                out
            },
            _ => {
                let mut out = String::new();
                out.append(template);
                out.append("\n\n[Constants]\n");
                out.append(self.constants.as_str());
                out
            },
        }
    }

    /// The `[Constants]` text generated so far.
    pub fn constants(&self) -> (r: &str)
        ensures
            r@ == self.spec_constants(),
    {
        self.constants.as_str()
    }

    /// Total size of all processed fields.
    pub fn total_size(&self) -> (r: usize)
        ensures
            r == self.spec_offset(),
    {
        self.total_offset
    }
}

/// The Java constants for `keys`: a numeric value as an `int`, any other as
/// a `String`.
pub open spec fn java_constants(vars: Map<Seq<char>, Seq<char>>, keys: Seq<Seq<char>>) -> Seq<char>
    decreases keys.len(),
{
    if keys.len() == 0 {
        Seq::empty()
    } else {
        let k = keys.last();
        java_constants(vars, keys.drop_last()) + if vars.contains_key(lowercase(k)) {
            let value = vars[lowercase(k)];
            if spec_parse_i64(value) is Some {
                "    public static final int "@ + uppercase(k) + " = "@ + value + ";\n"@
            } else {
                "    public static final String "@ + uppercase(k) + " = \""@ + value + "\";\n"@
            }
        } else {
            Seq::empty()
        }
    }
}

/// Java `VariableRegistryValues` class generator.
pub struct JavaRegistryGenerator;

impl JavaRegistryGenerator {
    /// The Java class `class_name` holding every variable of `registry` as
    /// a constant, in registration order.
    pub fn render(registry: &VariableRegistry, class_name: &str) -> (r: String)
        ensures
            r@ == "// Generated by rusefi-codegen\n\n"@ + "package com.rusefi.config.generated;\n\n"@
                + "public class "@ + class_name@ + " {\n"@ + java_constants(
                registry@.vars,
                registry.key_order(),
            ) + "}\n"@,
    {
        let mut out = String::from_str("// Generated by rusefi-codegen\n\n");
        out.append("package com.rusefi.config.generated;\n\n");
        out.append("public class ");
        out.append(class_name);
        out.append(" {\n");
        let ghost head = out@;
        let keys = registry.keys();
        let ghost ks = keys@.map_values(|k: String| k@);
        let mut i: usize = 0;
        assert(ks.take(0) =~= Seq::<Seq<char>>::empty());
        while i < keys.len()
            invariant
                i <= keys@.len(),
                ks == keys@.map_values(|k: String| k@),
                out@ == head + java_constants(registry@.vars, ks.take(i as int)),
            decreases keys@.len() - i,
        {
            assert(ks.take(i + 1).drop_last() =~= ks.take(i as int));
            let key = keys[i].as_str();
            if let Some(value) = registry.get(key) {
                if parse_i64(value).is_some() {
                    out.append("    public static final int ");
                    out.append(to_uppercase(key).as_str());
                    out.append(" = ");
                    out.append(value);
                    out.append(";\n");
                } else {
                    out.append("    public static final String ");
                    out.append(to_uppercase(key).as_str());
                    out.append(" = \"");
                    out.append(value);
                    out.append("\";\n");
                }
            }
            i += 1;
        }
        assert(ks.take(keys@.len() as int) =~= ks);
        out.append("}\n");
        out
    }
}

} // verus!
