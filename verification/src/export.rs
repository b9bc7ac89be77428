//! The export pipeline: flags, operation planning and render preparation.
//!
//! The user's per-property flags are planned into an ordered, duplicate
//! free list of render operations, the document is resolved into an
//! effective palette, and each operation is prepared as an output
//! filename together with the palette's RGB triples for that property.
//! Reading the input file and writing the images stay outside.

use vstd::prelude::*;

use vstd::string::{StrSliceExecFns, StringExecFns};

use crate::get_colors_from_meta::{get_colors_from_palette, rgb_of, MaterialProperty};
use crate::palette::{
    first_oob_in_chain, get_palette_from_meta, requested_variant, apply_chain, GetPaletteError,
};
use crate::save_image::Colors;
use crate::schema::{MaterialSchema, VTMetaSchema};
use crate::variants::{chain_of, find_chain, forest_names};

verus! {

/// The arguments of one export invocation.
pub struct ExportArgs {
    pub input_file: String,
    pub output_directory: String,
    pub filename: Option<String>,
    pub verbose: bool,
    pub color: bool,
    pub company_tint: bool,
    pub emission: bool,
    pub glassiness: bool,
    pub smoothness: bool,
    pub specular: bool,
    pub variant: Option<String>,
    pub all: bool,
}

/// The command surface: one subcommand per tool operation.
pub enum Commands {
    Export(ExportArgs),
}

/// The parsed command line.
pub struct Cli {
    pub command: Commands,
}

/// Failure of an export invocation.
#[derive(Debug)]
pub enum ExportError {
    /// The input file could not be read.
    FileRead,
    /// The input file is not a valid metadata document.
    JsonParse,
    /// No channel flag was given.
    NoOperations,
    /// The requested variant is nowhere in the forest; carries the name
    /// and every observable name.
    InvalidVariantName(String, Vec<String>),
    /// An override along the resolution chain references a slot outside
    /// the base palette; carries the slot and the palette length.
    OverrideIndexOutOfRange(u8, usize),
}

/// The per-property channel flags of one invocation.
pub struct ProcessArgs {
    pub color: bool,
    pub company_tint: bool,
    pub emission: bool,
    pub glassiness: bool,
    pub smoothness: bool,
    pub specular: bool,
    pub all: bool,
}

/// Whether the flags select `property` for rendering: its own flag or the
/// `all` flag does.
pub open spec fn selects(args: ProcessArgs, property: MaterialProperty) -> bool {
    args.all || match property {
        MaterialProperty::Color => args.color,
        MaterialProperty::CompanyTint => args.company_tint,
        MaterialProperty::Emission => args.emission,
        MaterialProperty::Glassiness => args.glassiness,
        MaterialProperty::Smoothness => args.smoothness,
        MaterialProperty::Specular => args.specular,
    }
}

/// All six material properties, in the fixed planning order.
pub open spec fn all_properties() -> Seq<MaterialProperty> {
    seq![
        MaterialProperty::Color,
        MaterialProperty::CompanyTint,
        MaterialProperty::Emission,
        MaterialProperty::Glassiness,
        MaterialProperty::Smoothness,
        MaterialProperty::Specular,
    ]
}

/// The planned operations: each selected property once, in planning
/// order.
pub open spec fn planned_operations(args: ProcessArgs) -> Seq<MaterialProperty> {
    (if selects(args, MaterialProperty::Color) {
        seq![MaterialProperty::Color]
    } else {
        Seq::empty()
    }) + (if selects(args, MaterialProperty::CompanyTint) {
        seq![MaterialProperty::CompanyTint]
    } else {
        Seq::empty()
    }) + (if selects(args, MaterialProperty::Emission) {
        seq![MaterialProperty::Emission]
    } else {
        Seq::empty()
    }) + (if selects(args, MaterialProperty::Glassiness) {
        seq![MaterialProperty::Glassiness]
    } else {
        Seq::empty()
    }) + (if selects(args, MaterialProperty::Smoothness) {
        seq![MaterialProperty::Smoothness]
    } else {
        Seq::empty()
    }) + (if selects(args, MaterialProperty::Specular) {
        seq![MaterialProperty::Specular]
    } else {
        Seq::empty()
    })
}

/// With the `all` flag set the plan is the full property list, whatever
/// the other flags say.
pub proof fn lemma_plan_all_properties(args: ProcessArgs)
    requires
        args.all,
    ensures
        planned_operations(args) == all_properties(),
{
    assert(planned_operations(args) =~= all_properties());
}

/// Plans the flags into the ordered, duplicate-free list of render
/// operations; an empty plan is an error, not a no-op.
pub fn process_operations(args: &ProcessArgs) -> (r: Result<Vec<MaterialProperty>, ExportError>)
    ensures
        r is Ok <==> (args.color || args.company_tint || args.emission || args.glassiness
            || args.smoothness || args.specular || args.all),
        r matches Ok(ops) ==> ops@ == planned_operations(*args),
        r matches Err(e) ==> e is NoOperations,
{
    let mut ops: Vec<MaterialProperty> = Vec::new();
    if args.color || args.all {
        ops.push(MaterialProperty::Color);
    }
    if args.company_tint || args.all {
        ops.push(MaterialProperty::CompanyTint);
    }
    if args.emission || args.all {
        ops.push(MaterialProperty::Emission);
    }
    if args.glassiness || args.all {
        ops.push(MaterialProperty::Glassiness);
    }
    if args.smoothness || args.all {
        ops.push(MaterialProperty::Smoothness);
    }
    if args.specular || args.all {
        ops.push(MaterialProperty::Specular);
    }
    if ops.len() == 0 {
        return Err(ExportError::NoOperations);
    }
    proof {
        assert(ops@ =~= planned_operations(*args));
    }
    Ok(ops)
}

/// `s` with every trailing `/` removed.
pub open spec fn drop_trailing_slashes(s: Seq<char>) -> Seq<char>
    decreases s.len(),
{
    if s.len() > 0 && s.last() == '/' {
        drop_trailing_slashes(s.drop_last())
    } else {
        s
    }
}

/// The part of `s` after its last `/`, or all of `s` when it has none.
pub open spec fn tail_after_last_slash(s: Seq<char>) -> Seq<char>
    decreases s.len(),
{
    if s.len() == 0 {
        s
    } else if s.last() == '/' {
        Seq::empty()
    } else {
        tail_after_last_slash(s.drop_last()).push(s.last())
    }
}

/// The position of the last `.` of `name`, if any.
pub open spec fn last_dot_index(name: Seq<char>) -> Option<int>
    decreases name.len(),
{
    if name.len() == 0 {
        None
    } else if name.last() == '.' {
        Some(name.len() - 1)
    } else {
        last_dot_index(name.drop_last())
    }
}

/// A file name without its extension: everything before the last `.`,
/// unless the only `.` starts the name.
pub open spec fn cut_extension(name: Seq<char>) -> Seq<char> {
    match last_dot_index(name) {
        Some(i) => if i > 0 {
            name.take(i)
        } else {
            name
        },
        None => name,
    }
}

/// The output filename stem derived from an input path: the final path
/// component without its extension, or `palette` when the path has no
/// usable component.
pub open spec fn path_stem(s: Seq<char>) -> Seq<char> {
    let name = tail_after_last_slash(drop_trailing_slashes(s));
    if name.len() == 0 || name == "."@ || name == ".."@ {
        "palette"@
    } else {
        cut_extension(name)
    }
}

/// Scans off trailing slashes: returns the end of the path with every
/// trailing `/` removed.
#[verifier::loop_isolation(false)]
fn scan_trailing_slashes(path: &str) -> (e: usize)
    ensures
        e <= path@.len(),
        drop_trailing_slashes(path@) == path@.take(e as int),
{
    let len = path.unicode_len();
    let mut e: usize = len;
    proof {
        assert(path@.take(len as int) =~= path@);
    }
    while e > 0 && path.get_char(e - 1) == '/'
        invariant
            e <= len,
            len == path@.len(),
            drop_trailing_slashes(path@) == drop_trailing_slashes(path@.take(e as int)),
        decreases e,
    {
        proof {
            assert(path@.take(e as int).drop_last() =~= path@.take(e as int - 1));
        }
        e = e - 1;
    }
    proof {
        if e == 0 {
            assert(path@.take(0) =~= Seq::<char>::empty());
        }
    }
    e
}

/// Scans back to the last `/` before `e`: returns the start of the final
/// path component of `path@.take(e)`.
#[verifier::loop_isolation(false)]
fn scan_component_start(path: &str, e: usize) -> (b: usize)
    requires
        e <= path@.len(),
    ensures
        b <= e,
        tail_after_last_slash(path@.take(e as int)) == path@.subrange(b as int, e as int),
{
    let mut b: usize = e;
    proof {
        assert(path@.subrange(e as int, e as int) =~= Seq::<char>::empty());
    }
    while b > 0 && path.get_char(b - 1) != '/'
        invariant
            b <= e <= path@.len(),
            tail_after_last_slash(path@.take(e as int)) == tail_after_last_slash(
                path@.take(b as int),
            ) + path@.subrange(b as int, e as int),
        decreases b,
    {
        proof {
            assert(path@.take(b as int).drop_last() =~= path@.take(b as int - 1));
            assert(tail_after_last_slash(path@.take(b as int - 1)).push(path@[b as int - 1])
                + path@.subrange(b as int, e as int) =~= tail_after_last_slash(
                path@.take(b as int - 1),
            ) + path@.subrange(b as int - 1, e as int));
        }
        b = b - 1;
    }
    proof {
        if b == 0 {
            assert(path@.take(0) =~= Seq::<char>::empty());
        }
        assert(tail_after_last_slash(path@.take(b as int)) + path@.subrange(b as int, e as int)
            =~= path@.subrange(b as int, e as int));
    }
    b
}

/// Scans back for the last `.` of the component `path@.subrange(b, e)`.
#[verifier::loop_isolation(false)]
fn scan_last_dot(path: &str, b: usize, e: usize) -> (d: usize)
    requires
        b <= e <= path@.len(),
    ensures
        b <= d <= e,
        d == b ==> last_dot_index(path@.subrange(b as int, e as int)) is None,
        d > b ==> last_dot_index(path@.subrange(b as int, e as int)) == Some(
            d as int - 1 - b as int,
        ),
{
    let ghost name = path@.subrange(b as int, e as int);
    let mut d: usize = e;
    proof {
        assert(name.take(name.len() as int) =~= name);
    }
    while d > b && path.get_char(d - 1) != '.'
        invariant
            b <= d <= e <= path@.len(),
            last_dot_index(name) == last_dot_index(name.take(d as int - b as int)),
        decreases d,
    {
        proof {
            assert(name.take(d as int - b as int).drop_last() =~= name.take(
                d as int - b as int - 1,
            ));
            assert(name.take(d as int - b as int).last() == path@[d as int - 1]);
        }
        d = d - 1;
    }
    proof {
        if d == b {
            assert(name.take(0) =~= Seq::<char>::empty());
        } else {
            assert(name.take(d as int - b as int).last() == path@[d as int - 1]);
        }
    }
    d
}

/// Derives the output filename stem from the input path.
pub fn get_filename_from_path(path: &str) -> (r: String)
    ensures
        r@ == path_stem(path@),
{
    let trimmed_end = scan_trailing_slashes(path);
    let b = scan_component_start(path, trimmed_end);
    let ghost name = path@.subrange(b as int, trimmed_end as int);
    proof {
        assert(forall|i: int| 0 <= i < name.len() ==> #[trigger] name[i] == path@[b + i]);
    }
    if b == trimmed_end {
        proof {
            reveal_strlit("palette");
        }
        return "palette".to_owned();
    }
    if trimmed_end - b == 1 && path.get_char(b) == '.' {
        proof {
            reveal_strlit(".");
            reveal_strlit("palette");
            assert(name =~= "."@);
        }
        return "palette".to_owned();
    }
    if trimmed_end - b == 2 && path.get_char(b) == '.' && path.get_char(b + 1) == '.' {
        proof {
            reveal_strlit("..");
            reveal_strlit("palette");
            assert(name =~= ".."@);
        }
        return "palette".to_owned();
    }
    proof {
        reveal_strlit(".");
        reveal_strlit("..");
        assert(name.len() > 0);
        if name.len() == 1 {
            assert(name[0] == path@[b as int]);
            assert(name[0] != '.');
            assert(name != "."@);
        } else {
            assert(name != "."@);
        }
        if name.len() == 2 {
            assert(name[0] == path@[b as int] && name[1] == path@[b as int + 1]);
            assert(!(name[0] == '.' && name[1] == '.'));
            assert(name != ".."@);
        } else {
            assert(name != ".."@);
        }
        assert(path_stem(path@) == cut_extension(name));
    }
    let d = scan_last_dot(path, b, trimmed_end);
    if d > b && d - 1 > b {
        proof {
            assert(name.take(d as int - 1 - b as int) =~= path@.subrange(
                b as int,
                d as int - 1,
            ));
        }
        path.substring_char(b, d - 1).to_owned()
    } else {
        proof {
            if d > b {
                assert(d as int - 1 - b as int == 0);
            }
            assert(name.take(name.len() as int) =~= name);
        }
        path.substring_char(b, trimmed_end).to_owned()
    }
}


/// One prepared render operation: the output filename and the palette's
/// RGB triples for the chosen property.
#[derive(Debug)]
pub struct RenderJob {
    pub filename: String,
    pub colors: Colors,
}

/// The output filename for one property: `<stem>-<property>.png`.
pub open spec fn spec_export_filename(stem: Seq<char>, property: MaterialProperty) -> Seq<char> {
    stem + "-"@ + property.spec_name() + ".png"@
}

/// Builds the output filename for one property.
pub fn export_filename(stem: &str, property: &MaterialProperty) -> (r: String)
    ensures
        r@ == spec_export_filename(stem@, *property),
{
    let mut out = stem.to_owned();
    out.append("-");
    let prop_name = property.name();
    out.append(prop_name.as_str());
    out.append(".png");
    out
}

/// The parts joined with the separator between consecutive parts.
pub open spec fn spec_join(parts: Seq<Seq<char>>, sep: Seq<char>) -> Seq<char>
    decreases parts.len(),
{
    if parts.len() == 0 {
        Seq::empty()
    } else if parts.len() == 1 {
        parts[0]
    } else {
        parts[0] + sep + spec_join(parts.drop_first(), sep)
    }
}

/// Joining one more part appends a separator and the part.
proof fn lemma_join_snoc(parts: Seq<Seq<char>>, sep: Seq<char>, x: Seq<char>)
    ensures
        parts.len() == 0 ==> spec_join(parts.push(x), sep) == x,
        parts.len() > 0 ==> spec_join(parts.push(x), sep) == spec_join(parts, sep) + sep + x,
    decreases parts.len(),
{
    if parts.len() == 0 {
        assert(parts.push(x)[0] == x);
    } else {
        assert(parts.push(x)[0] == parts[0]);
        assert(parts.push(x).drop_first() =~= parts.drop_first().push(x));
        lemma_join_snoc(parts.drop_first(), sep, x);
        if parts.len() == 1 {
            assert(parts.push(x).len() == 2);
            assert(spec_join(parts.push(x), sep) == parts[0] + sep + x);
        } else {
            assert(parts[0] + sep + (spec_join(parts.drop_first(), sep) + sep + x) =~= (
            parts[0] + sep + spec_join(parts.drop_first(), sep)) + sep + x);
        }
    }
}

/// Joins the parts with the separator between consecutive parts.
#[verifier::loop_isolation(false)]
fn join_strings(parts: &Vec<String>, sep: &str) -> (r: String)
    ensures
        r@ == spec_join(parts.deep_view(), sep@),
{
    let mut out = String::new();
    let mut i: usize = 0;
    proof {
        assert(parts.deep_view().take(0) =~= Seq::<Seq<char>>::empty());
    }
    while i < parts.len()
        invariant
            i <= parts@.len(),
            parts.deep_view().len() == parts@.len(),
            out@ == spec_join(parts.deep_view().take(i as int), sep@),
        decreases parts@.len() - i,
    {
        if i > 0 {
            out.append(sep);
        }
        out.append(parts[i].as_str());
        proof {
            lemma_join_snoc(parts.deep_view().take(i as int), sep@, parts.deep_view()[i as int]);
            assert(parts.deep_view().take(i as int + 1) =~= parts.deep_view().take(
                i as int,
            ).push(parts.deep_view()[i as int]));
            assert(parts.deep_view()[i as int] == parts@[i as int]@);
        }
        i = i + 1;
    }
    proof {
        assert(parts.deep_view().take(parts@.len() as int) =~= parts.deep_view());
    }
    out
}

impl ExportError {
    /// The human-readable line reported for this failure.
    pub open spec fn spec_message(self) -> Seq<char> {
        match self {
            ExportError::FileRead => "Failed to read the file"@,
            ExportError::JsonParse => "Invalid input file. Verify if you provided .meta file."@,
            ExportError::NoOperations =>
                "Specify export operation. Use -h for help or if you want export all textures use -a"@,
            ExportError::InvalidVariantName(v, available) => if available@.len() == 0 {
                "Invalid variant name: "@ + v@
            } else {
                "Invalid variant name: "@ + v@ + "\nAvailable variants: "@ + spec_join(
                    available.deep_view(),
                    ", "@,
                )
            },
            ExportError::OverrideIndexOutOfRange(_idx, _len) =>
                "A variant override references a palette index out of range"@,
        }
    }

    /// Formats the human-readable line reported for this failure; for a
    /// missing variant it names the variant and lists the observable
    /// names joined by `, `.
    pub fn message(&self) -> (r: String)
        ensures
            r@ == self.spec_message(),
    {
        match self {
            ExportError::FileRead => "Failed to read the file".to_owned(),
            ExportError::JsonParse => "Invalid input file. Verify if you provided .meta file.".to_owned(),
            ExportError::NoOperations =>
                "Specify export operation. Use -h for help or if you want export all textures use -a".to_owned(),
            ExportError::InvalidVariantName(v, available) => {
                let mut out = "Invalid variant name: ".to_owned();
                out.append(v.as_str());
                if available.len() > 0 {
                    out.append("\nAvailable variants: ");
                    let joined = join_strings(available, ", ");
                    out.append(joined.as_str());
                }
                out
            },
            ExportError::OverrideIndexOutOfRange(_idx, _len) =>
                "A variant override references a palette index out of range".to_owned(),
        }
    }
}

/// The channel flags of an invocation, without its other arguments.
pub open spec fn flags_of(args: ExportArgs) -> ProcessArgs {
    ProcessArgs {
        color: args.color,
        company_tint: args.company_tint,
        emission: args.emission,
        glassiness: args.glassiness,
        smoothness: args.smoothness,
        specular: args.specular,
        all: args.all,
    }
}

/// Whether any render operation is selected.
pub open spec fn any_operation(args: ProcessArgs) -> bool {
    args.color || args.company_tint || args.emission || args.glassiness || args.smoothness
        || args.specular || args.all
}

/// The stem of the output filenames: the explicit override, or the one
/// derived from the input path.
pub open spec fn export_stem(args: ExportArgs) -> Seq<char> {
    match args.filename {
        Option::Some(f) => f@,
        Option::None => path_stem(args.input_file@),
    }
}

/// Whether resolution of the requested variant succeeds on this document.
pub open spec fn resolves(meta: VTMetaSchema, variant: Option<String>) -> bool {
    match requested_variant(variant) {
        Option::None => true,
        Option::Some(t) => find_chain(meta.variants@, t) is Some && first_oob_in_chain(
            chain_of(meta.variants@, t),
            meta.materials@.len() as nat,
        ) is None,
    }
}

/// A resolution that succeeds yields a palette exactly as long as the
/// base palette, whichever variant was requested.
pub proof fn lemma_resolved_palette_length(meta: VTMetaSchema, variant: Option<String>)
    requires
        resolves(meta, variant),
    ensures
        resolved_palette(meta, variant).len() == meta.materials@.len(),
{
    match requested_variant(variant) {
        Option::None => {},
        Option::Some(t) => {
            let c = chain_of(meta.variants@, t);
            let n = meta.materials@.len() as nat;
            crate::palette::lemma_chain_oob_none_split(c, n);
            assert forall|i: int|
                0 <= i < c.len() implies crate::palette::overrides_in_range(
                (#[trigger] c[i]).variant.materials@,
                n,
            ) by {
                crate::palette::lemma_oob_none_iff_in_range(c[i].variant.materials@, n);
            }
            crate::palette::lemma_apply_chain_preserves_len(meta.materials@, c);
        },
    }
}

/// The effective palette of a resolution that succeeds.
pub open spec fn resolved_palette(meta: VTMetaSchema, variant: Option<String>) -> Seq<
    MaterialSchema,
> {
    match requested_variant(variant) {
        Option::None => meta.materials@,
        Option::Some(t) => apply_chain(meta.materials@, chain_of(meta.variants@, t)),
    }
}

/// Prepares one export invocation: resolves the palette, plans the
/// operations, and pairs each planned property with its output filename
/// and its RGB triples.  Writing the images is left to the caller.
#[verifier::loop_isolation(false)]
pub fn plan_export(meta: &VTMetaSchema, args: &ExportArgs) -> (r: Result<Vec<RenderJob>, ExportError>)
    ensures
        r is Ok <==> resolves(*meta, args.variant) && any_operation(flags_of(*args)),
        requested_variant(args.variant) matches Some(t) ==> match find_chain(meta.variants@, t) {
            Option::None => (r matches Err(e) && e matches ExportError::InvalidVariantName(
                name,
                available,
            ) && name@ == t && available.deep_view() == forest_names(meta.variants@)),
            Option::Some(c) => (first_oob_in_chain(c, meta.materials@.len() as nat) matches Some(
                idx,
            ) ==> r matches Err(e) && e == ExportError::OverrideIndexOutOfRange(
                idx,
                meta.materials@.len() as usize,
            )),
        },
        resolves(*meta, args.variant) && !any_operation(flags_of(*args)) ==> (r matches Err(e)
            && e is NoOperations),
        r matches Ok(jobs) ==> ({
            let ops = planned_operations(flags_of(*args));
            let palette = resolved_palette(*meta, args.variant);
            &&& jobs@.len() == ops.len()
            &&& forall|j: int|
                0 <= j < ops.len() ==> (#[trigger] jobs@[j]).filename@ == spec_export_filename(
                    export_stem(*args),
                    ops[j],
                )
            &&& forall|j: int|
                0 <= j < ops.len() ==> (#[trigger] jobs@[j]).colors@.len() == palette.len()
            &&& forall|j: int, i: int|
                0 <= j < ops.len() && 0 <= i < palette.len() ==> (#[trigger] jobs@[
                    j
                ].colors@[i])@ == rgb_of(palette[i], ops[j])
        }),
{
    let palette = match get_palette_from_meta(meta, &args.variant) {
        Ok(p) => p,
        Err(GetPaletteError::VariantNotExist(name, available)) => {
            return Err(ExportError::InvalidVariantName(name, available));
        },
        Err(GetPaletteError::OverrideIndexOutOfRange(idx, n)) => {
            return Err(ExportError::OverrideIndexOutOfRange(idx, n));
        },
    };
    proof {
        assert(palette@ == resolved_palette(*meta, args.variant));
    }
    let process_args = ProcessArgs {
        color: args.color,
        company_tint: args.company_tint,
        emission: args.emission,
        glassiness: args.glassiness,
        smoothness: args.smoothness,
        specular: args.specular,
        all: args.all,
    };
    let ops = match process_operations(&process_args) {
        Ok(ops) => ops,
        Err(e) => {
            return Err(e);
        },
    };
    let stem: String = match &args.filename {
        Some(f) => f.clone(),
        None => get_filename_from_path(args.input_file.as_str()),
    };
    let mut jobs: Vec<RenderJob> = Vec::new();
    let mut i: usize = 0;
    while i < ops.len()
        invariant
            i <= ops@.len(),
            jobs@.len() == i,
            forall|j: int|
                0 <= j < i ==> (#[trigger] jobs@[j]).filename@ == spec_export_filename(
                    export_stem(*args),
                    ops@[j],
                ),
            forall|j: int|
                0 <= j < i ==> (#[trigger] jobs@[j]).colors@.len() == palette@.len(),
            forall|j: int, ii: int|
                0 <= j < i && 0 <= ii < palette@.len() ==> (#[trigger] jobs@[j].colors@[
                    ii
                ])@ == rgb_of(palette@[ii], ops@[j]),
        decreases ops@.len() - i,
    {
        let prop = ops[i];
        let colors = get_colors_from_palette(&palette, &prop);
        let filename = export_filename(stem.as_str(), &prop);
        jobs.push(RenderJob { filename, colors });
        i = i + 1;
    }
    Ok(jobs)
}

} // verus!
