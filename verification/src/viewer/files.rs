//! Files: which one is opened, and the copies that reloading makes.

use crate::ieee::Single;
use crate::text::{join2, join3, same_text, strip_prefix, text_of, texts};
use crate::viewer::paths::{
    extension_of, file_name_of, hash_path, hash_text, is_portable, is_rooted, joins,
    may_be_absolute, may_extend, may_feed, may_join, may_name, may_parent, parent_of,
    path_extension, path_file_name, path_is_absolute, path_join, path_parent, text_writes,
};
use std::collections::hash_map::DefaultHasher;
use std::hash::Hasher;
use vstd::prelude::*;
use vstd::std_specs::hash::DefaultHasherAdditionalSpecFns;
use vstd::string::StringExecFns;

verus! {

/// The file to open: its name, and the directory that it is in.
#[derive(Debug, Clone, PartialEq)]
pub struct RequestedAsset {
    pub name: String,
    pub root: String,
}

/// A file's own name and directory, as far as its path has them.
pub struct PathParts {
    pub file_name: Option<String>,
    pub parent: Option<String>,
}

/// A text, or another one where there is none.
pub open spec fn text_or(s: Option<String>, other: Seq<char>) -> Seq<char> {
    match s {
        Some(s) => s@,
        None => other,
    }
}

fn owned_or(s: &Option<String>, other: &str) -> (r: String)
    ensures
        r@ == text_or(*s, other@),
{
    match s {
        Some(s) => s.as_str().to_owned(),
        None => other.to_owned(),
    }
}

/// The file that a path stands for: its last part in its directory. A path
/// without a last part is itself the name, and one without a directory is looked
/// for at `fallback`.
pub fn asset_at(path: &str, parts: &PathParts, fallback: &str) -> (r: RequestedAsset)
    ensures
        r.name@ == text_or(parts.file_name, path@),
        r.root@ == text_or(parts.parent, fallback@),
{
    RequestedAsset {
        name: owned_or(&parts.file_name, path),
        root: owned_or(&parts.parent, fallback),
    }
}

/// Whether a machine may take a path apart into a file name and a parent. A
/// portable path has only one of each.
pub open spec fn is_split(
    path: Seq<char>,
    file_name: Option<Seq<char>>,
    parent: Option<Seq<char>>,
) -> bool {
    &&& may_name(path, file_name)
    &&& may_parent(path, parent)
    &&& is_portable(path) ==> file_name == file_name_of(path) && parent == parent_of(path)
}

/// Takes a path apart.
fn split_path(path: &str) -> (r: PathParts)
    ensures
        is_split(path@, text_of(r.file_name), text_of(r.parent)),
        r.parent matches Some(parent) ==> parent@.is_prefix_of(path@),
{
    PathParts { file_name: path_file_name(path), parent: path_parent(path) }
}

/// Whether a file is the one that a path stands for: its file name in its parent,
/// or `name` and `fallback` where it has none.
pub open spec fn is_asset_of(
    asset: RequestedAsset,
    path: Seq<char>,
    name: Seq<char>,
    fallback: Seq<char>,
) -> bool {
    exists|file_name: Option<Seq<char>>, parent: Option<Seq<char>>|
        {
            &&& #[trigger] is_split(path, file_name, parent)
            &&& asset.name@ == part_or(file_name, name)
            &&& asset.root@ == part_or(parent, fallback)
        }
}

/// A part of a path, or something else where there is none.
pub open spec fn part_or(part: Option<Seq<char>>, other: Seq<char>) -> Seq<char> {
    match part {
        Some(part) => part,
        None => other,
    }
}

/// Whether a path may be what joining two others gives.
pub open spec fn is_joined(path: Seq<char>, base: Seq<char>, name: Seq<char>) -> bool {
    &&& may_join(base, name, path)
    &&& is_portable(name) && is_portable(base) ==> joins(path, base, name)
}

/// Whether a path is where a name is looked for: below `base`, unless the name is
/// a full path itself.
pub open spec fn is_looked_for(path: Seq<char>, name: Seq<char>, base: Seq<char>) -> bool {
    ||| may_be_absolute(name, true) && path == name && (is_portable(name) ==> is_rooted(name))
    ||| may_be_absolute(name, false) && is_joined(path, base, name)
}

/// A directory, or another one where there is none.
pub open spec fn directory_or(dir: Option<&str>, other: Seq<char>) -> Seq<char> {
    match dir {
        Some(dir) => dir@,
        None => other,
    }
}

/// The file to open where none is named.
pub const DEFAULT_ASSET: &'static str = "two_xforms.usda";

/// The directory that it is in.
pub const DEFAULT_DIRECTORY: &'static str = "assets";

/// Decides which file to open: the one named on the command line, in its own
/// directory, or the default one, which is below `workspace_root`. A name that
/// is not a full path is looked for in the current directory, or at
/// `workspace_root` where there is none.
pub fn resolve_requested_asset(
    arg: Option<&str>,
    current_dir: Option<&str>,
    workspace_root: &str,
) -> (r: RequestedAsset)
    ensures
        match arg {
            None => {
                &&& r.name@ == DEFAULT_ASSET@
                &&& is_joined(r.root@, workspace_root@, DEFAULT_DIRECTORY@)
            },
            Some(raw) => exists|path: Seq<char>|
                {
                    &&& #[trigger] is_looked_for(
                        path,
                        raw@,
                        directory_or(current_dir, workspace_root@),
                    )
                    &&& is_asset_of(r, path, raw@, workspace_root@)
                },
        },
{
    match arg {
        None => RequestedAsset {
            name: DEFAULT_ASSET.to_owned(),
            root: path_join(workspace_root, DEFAULT_DIRECTORY),
        },
        Some(raw) => {
            let full: String = if path_is_absolute(raw) {
                raw.to_owned()
            } else {
                match current_dir {
                    Some(dir) => path_join(dir, raw),
                    None => path_join(workspace_root, raw),
                }
            };
            let asset: RequestedAsset = asset_at(raw, &split_path(full.as_str()), workspace_root);
            assert(is_looked_for(full@, raw@, directory_or(current_dir, workspace_root@)));
            asset
        },
    }
}

/// Decides which file a chosen path stands for: its last part in its directory,
/// which is the current one where the path has none.
pub fn resolve_load_request(path: &str) -> (r: RequestedAsset)
    ensures
        is_asset_of(r, path@, path@, "."@),
        r.root@ == "."@ || r.root@.is_prefix_of(path@),
{
    asset_at(path, &split_path(path), ".")
}

/// The lower-case digit of a number below sixteen.
pub open spec fn hex_digit(d: int) -> char {
    if d < 10 {
        (48 + d) as char
    } else {
        (87 + d) as char
    }
}

/// Sixteen to the power of `n`.
pub open spec fn weight(n: nat) -> nat
    decreases n,
{
    if n == 0 {
        1
    } else {
        16 * weight((n - 1) as nat)
    }
}

/// A number as sixteen lower-case hexadecimal digits.
pub open spec fn hex16(x: u64) -> Seq<char> {
    Seq::new(16, |i: int| hex_digit((x as nat / weight((15 - i) as nat)) as int % 16))
}

/// The digit of a number below sixteen, as a text.
fn hex_text(d: u64) -> (r: &'static str)
    requires
        d < 16,
    ensures
        r@ == seq![hex_digit(d as int)],
{
    proof {
        reveal_strlit("0");
        reveal_strlit("1");
        reveal_strlit("2");
        reveal_strlit("3");
        reveal_strlit("4");
        reveal_strlit("5");
        reveal_strlit("6");
        reveal_strlit("7");
        reveal_strlit("8");
        reveal_strlit("9");
        reveal_strlit("a");
        reveal_strlit("b");
        reveal_strlit("c");
        reveal_strlit("d");
        reveal_strlit("e");
        reveal_strlit("f");
    }
    let r: &'static str = match d {
        0 => "0",
        1 => "1",
        2 => "2",
        3 => "3",
        4 => "4",
        5 => "5",
        6 => "6",
        7 => "7",
        8 => "8",
        9 => "9",
        10 => "a",
        11 => "b",
        12 => "c",
        13 => "d",
        14 => "e",
        _ => "f",
    };
    assert(r@ =~= seq![hex_digit(d as int)]);
    r
}

/// A number as sixteen lower-case hexadecimal digits.
pub fn to_hex(x: u64) -> (r: String)
    ensures
        r@ == hex16(x),
{
    let mut out: String = String::new();
    let mut p: u64 = 0x1000_0000_0000_0000;
    let mut i: usize = 0;
    proof {
        reveal_with_fuel(weight, 17);
        assert(weight(15) == 0x1000_0000_0000_0000);
    }
    while i < 16
        invariant
            i <= 16,
            i < 16 ==> p == weight((15 - i) as nat),
            out@ == hex16(x).take(i as int),
        decreases 16 - i,
    {
        proof {
            lemma_weight_positive((15 - i) as nat);
        }
        let d: u64 = (x / p) % 16;
        out.append(hex_text(d));
        proof {
            assert(out@ =~= hex16(x).take(i + 1));
            if i < 15 {
                assert(weight((15 - i) as nat) == 16 * weight((14 - i) as nat));
            }
        }
        p = p / 16;
        i = i + 1;
    }
    assert(hex16(x).take(16) =~= hex16(x));
    out
}

proof fn lemma_weight_positive(n: nat)
    ensures
        weight(n) > 0,
    decreases n,
{
    if n > 0 {
        lemma_weight_positive((n - 1) as nat);
    }
}

/// What the names of the copies begin with.
pub const VARIANT_PREFIX: &'static str = ".bevy_openusd_variant_";

/// The name of the copy for a hash and an extension.
pub open spec fn variant_name(hash: u64, extension: Seq<char>) -> Seq<char> {
    VARIANT_PREFIX@ + hex16(hash) + seq!['.'] + extension
}

/// The name of the copy for a hash and an extension, which is `usda` where the
/// source has none.
pub fn variant_basename(hash: u64, extension: Option<&str>) -> (r: String)
    ensures
        r@ == variant_name(
            hash,
            match extension {
                Some(e) => e@,
                None => "usda"@,
            },
        ),
{
    let extension: &str = match extension {
        Some(e) => e,
        None => "usda",
    };
    proof {
        reveal_strlit(".");
        assert("."@ =~= seq!['.']);
    }
    let digits: String = to_hex(hash);
    let front: String = join3(VARIANT_PREFIX, digits.as_str(), ".");
    join2(front.as_str(), extension)
}

/// What a choice of variants feeds to a hasher.
pub open spec fn selection_writes(list: Seq<(Seq<char>, Seq<char>, Seq<char>)>) -> Seq<Seq<u8>>
    decreases list.len(),
{
    if list.len() == 0 {
        seq![]
    } else {
        let last = list.last();
        selection_writes(list.drop_last()) + text_writes(last.0) + text_writes(last.1)
            + text_writes(last.2)
    }
}

/// Feeds a choice of variants to a hasher.
fn hash_selections(list: &Vec<VariantSelection>, hasher: &mut DefaultHasher)
    ensures
        final(hasher)@ == old(hasher)@ + selection_writes(selections(list@)),
{
    let ghost all = selections(list@);
    let ghost start = hasher@;
    let mut i: usize = 0;
    assert(start + selection_writes(all.take(0)) =~= start);
    while i < list.len()
        invariant
            i <= list.len(),
            all == selections(list@),
            hasher@ == start + selection_writes(all.take(i as int)),
        decreases list.len() - i,
    {
        let v: &VariantSelection = &list[i];
        let ghost here = hasher@;
        hash_text(v.prim_path.as_str(), hasher);
        hash_text(v.set_name.as_str(), hasher);
        hash_text(v.option.as_str(), hasher);
        proof {
            assert(all.take(i + 1).drop_last() =~= all.take(i as int));
            assert(all.take(i + 1).last() == list@[i as int]@);
            assert(hasher@ =~= start + selection_writes(all.take(i + 1)));
        }
        i = i + 1;
    }
    assert(all.take(i as int) =~= all);
}

/// Whether a name is the one of a copy of a file for a choice of variants: it is
/// made of the hash of both, and keeps the extension of the file, which is `usda`
/// where it has none.
pub open spec fn names_copy(
    name: Seq<char>,
    source: Seq<char>,
    list: Seq<(Seq<char>, Seq<char>, Seq<char>)>,
) -> bool {
    exists|fed: Seq<Seq<u8>>, extension: Option<Seq<char>>|
        {
            &&& #[trigger] may_feed(source, fed)
            &&& #[trigger] may_extend(source, extension)
            &&& is_portable(source) ==> extension == extension_of(source)
            &&& name == variant_name(
                DefaultHasher::spec_finish(fed + selection_writes(list)),
                part_or(extension, "usda"@),
            )
        }
}

/// The name of the copy that a reload opens. Opening a file under a name that
/// was opened before does not read it again, so every choice of variants has a
/// name of its own, made from its hash and that of the path.
pub fn unique_variant_basename(source: &str, selections: &Vec<VariantSelection>) -> (r: String)
    ensures
        names_copy(r@, source@, self::selections(selections@)),
        is_copy(r@),
{
    let mut hasher: DefaultHasher = DefaultHasher::new();
    hash_path(source, &mut hasher);
    let ghost fed = hasher@;
    assert(fed.skip(0) =~= fed);
    hash_selections(selections, &mut hasher);
    let hash: u64 = hasher.finish();
    let extension: Option<String> = path_extension(source);
    let r: String = match &extension {
        Some(e) => variant_basename(hash, Some(e.as_str())),
        None => variant_basename(hash, None),
    };
    proof {
        let e = part_or(text_of(extension), "usda"@);
        copies_are_swept(hash, e);
        assert(may_feed(source@, fed) && may_extend(source@, text_of(extension)));
        assert(r@ == variant_name(
            DefaultHasher::spec_finish(fed + selection_writes(self::selections(selections@))),
            e,
        ));
    }
    r
}

/// Whether a file is one of the copies.
pub open spec fn is_copy(name: Seq<char>) -> bool {
    VARIANT_PREFIX@.is_prefix_of(name)
}

/// Whether a file is one of the copies.
pub fn is_variant_copy(name: &str) -> (r: bool)
    ensures
        r == is_copy(name@),
{
    strip_prefix(name, VARIANT_PREFIX).is_some()
}

/// Decides which of the files of a directory to delete when the viewer starts:
/// the copies that earlier runs left.
pub fn sweep_variant_tempfiles(names: &Vec<String>) -> (r: Vec<String>)
    ensures
        texts(r@) == texts(names@).filter(|name: Seq<char>| is_copy(name)),
{
    let mut out: Vec<String> = Vec::new();
    let ghost all = texts(names@);
    let ghost keep = |name: Seq<char>| is_copy(name);
    let mut i: usize = 0;
    proof {
        reveal(Seq::filter);
        assert(all.take(0) =~= seq![]);
        assert(texts(out@) =~= seq![]);
    }
    while i < names.len()
        invariant
            i <= names.len(),
            all == texts(names@),
            keep == (|name: Seq<char>| is_copy(name)),
            texts(out@) == all.take(i as int).filter(keep),
        decreases names.len() - i,
    {
        proof {
            reveal(Seq::filter);
            assert(all.take(i + 1).drop_last() =~= all.take(i as int));
            assert(all.take(i + 1).last() == names@[i as int]@);
        }
        if is_variant_copy(names[i].as_str()) {
            let ghost before = out@;
            out.push(names[i].as_str().to_owned());
            assert(texts(out@) =~= texts(before).push(names@[i as int]@));
        }
        i = i + 1;
    }
    assert(all.take(i as int) =~= all);
    out
}

/// Every copy is swept up when the viewer starts again.
pub proof fn copies_are_swept(hash: u64, extension: Seq<char>)
    ensures
        is_copy(variant_name(hash, extension)),
{
    assert(VARIANT_PREFIX@.is_prefix_of(variant_name(hash, extension)));
}

/// Two numbers with the same digits are the same, as far as the digits looked
/// at go.
proof fn lemma_digits_decide(a: u64, b: u64, n: nat)
    requires
        n <= 16,
        hex16(a) == hex16(b),
    ensures
        a as nat / weight((16 - n) as nat) == b as nat / weight((16 - n) as nat),
    decreases n,
{
    if n == 0 {
        reveal_with_fuel(weight, 17);
        assert(weight(16) == 0x1_0000_0000_0000_0000);
        assert(a as nat / weight(16) == 0) by (nonlinear_arith)
            requires
                a < weight(16),
                weight(16) > 0,
        ;
        assert(b as nat / weight(16) == 0) by (nonlinear_arith)
            requires
                b < weight(16),
                weight(16) > 0,
        ;
    } else {
        lemma_digits_decide(a, b, (n - 1) as nat);
        let w = weight((16 - n) as nat);
        lemma_weight_positive((16 - n) as nat);
        assert(weight((17 - n) as nat) == 16 * w);
        vstd::arithmetic::div_mod::lemma_div_denominator(a as int, w as int, 16);
        vstd::arithmetic::div_mod::lemma_div_denominator(b as int, w as int, 16);
        assert(w * 16 == 16 * w);
        let i = n - 1;
        let x = a as nat / w;
        let y = b as nat / w;
        assert((15 - i) as nat == (16 - n) as nat);
        assert(hex16(a)[i] == hex_digit(x as int % 16));
        assert(hex16(b)[i] == hex_digit(y as int % 16));
        assert(x as int % 16 == y as int % 16);
        assert(x as int / 16 == y as int / 16);
    }
}

/// Two hashes never share a name.
pub proof fn hashes_have_their_own_names(a: u64, b: u64, extension: Seq<char>)
    requires
        variant_name(a, extension) == variant_name(b, extension),
    ensures
        a == b,
{
    let n = VARIANT_PREFIX@.len() as int;
    assert(variant_name(a, extension).subrange(n, n + 16) =~= hex16(a));
    assert(variant_name(b, extension).subrange(n, n + 16) =~= hex16(b));
    lemma_digits_decide(a, b, 16);
    assert(weight(0) == 1);
    assert(a as nat / 1 == a && b as nat / 1 == b);
}

/// Decides whether a copy has to be made: unless both files are there and say
/// when they were last changed, and the source was not changed after the copy.
/// The outer option says whether a file is there, the inner one when it was
/// changed.
pub fn needs_variant_copy(source: Option<Option<u128>>, copy: Option<Option<u128>>) -> (r: bool)
    ensures
        r == !(source matches Some(Some(s)) && copy matches Some(Some(c)) && s <= c),
{
    match (source, copy) {
        (Some(Some(s)), Some(Some(c))) => s > c,
        _ => true,
    }
}

/// A variant that has been chosen: an option of a set of a prim.
#[derive(Debug, Clone, PartialEq)]
pub struct VariantSelection {
    pub prim_path: String,
    pub set_name: String,
    pub option: String,
}

impl View for VariantSelection {
    type V = (Seq<char>, Seq<char>, Seq<char>);

    open spec fn view(&self) -> (Seq<char>, Seq<char>, Seq<char>) {
        (self.prim_path@, self.set_name@, self.option@)
    }
}

/// What the user has tuned.
pub struct Tuning {
    pub curve_default_radius: Single,
    pub curve_ring_segments: u32,
    pub point_scale: Single,
    pub variant_selections: Vec<VariantSelection>,
}

/// How a stage is to be loaded.
#[derive(Debug, Clone)]
pub struct LoaderSettings {
    /// The directories that references are looked for in.
    pub search_paths: Vec<String>,
    pub kind_collapse: bool,
    pub curve_default_radius: Single,
    pub curve_ring_segments: u32,
    pub point_scale: Single,
    pub variant_selections: Vec<VariantSelection>,
}

/// The choices of a list.
pub open spec fn selections(list: Seq<VariantSelection>) -> Seq<(Seq<char>, Seq<char>, Seq<char>)> {
    list.map_values(|v: VariantSelection| v@)
}

fn copy_selections(list: &Vec<VariantSelection>) -> (r: Vec<VariantSelection>)
    ensures
        selections(r@) == selections(list@),
{
    let mut out: Vec<VariantSelection> = Vec::new();
    let mut i: usize = 0;
    while i < list.len()
        invariant
            i <= list.len(),
            out.len() == i,
            forall|j: int| 0 <= j < i ==> out@[j]@ == list@[j]@,
        decreases list.len() - i,
    {
        let v: &VariantSelection = &list[i];
        out.push(
            VariantSelection {
                prim_path: v.prim_path.as_str().to_owned(),
                set_name: v.set_name.as_str().to_owned(),
                option: v.option.as_str().to_owned(),
            },
        );
        i = i + 1;
    }
    assert(selections(out@) =~= selections(list@));
    out
}

/// Decides how a stage is to be loaded: references are looked for beside it,
/// and the rest is as tuned. `kind_collapse` is the value of the environment
/// variable of that name.
pub fn loader_settings(root: &str, kind_collapse: Option<&str>, tuning: &Tuning) -> (r:
    LoaderSettings)
    ensures
        texts(r.search_paths@) == seq![root@],
        r.kind_collapse == (kind_collapse matches Some(v) && switches_on(v@)),
        r.curve_default_radius == tuning.curve_default_radius,
        r.curve_ring_segments == tuning.curve_ring_segments,
        r.point_scale == tuning.point_scale,
        selections(r.variant_selections@) == selections(tuning.variant_selections@),
{
    let mut search_paths: Vec<String> = Vec::new();
    search_paths.push(root.to_owned());
    assert(texts(search_paths@) =~= seq![root@]);
    LoaderSettings {
        search_paths,
        kind_collapse: env_flag(kind_collapse),
        curve_default_radius: tuning.curve_default_radius,
        curve_ring_segments: tuning.curve_ring_segments,
        point_scale: tuning.point_scale,
        variant_selections: copy_selections(&tuning.variant_selections),
    }
}

/// Whether the value of an environment variable switches something on.
pub open spec fn switches_on(value: Seq<char>) -> bool {
    value == "1"@ || value == "true"@ || value == "on"@
}

/// Decides whether an environment variable switches something on: one that is
/// not set does not.
pub fn env_flag(value: Option<&str>) -> (r: bool)
    ensures
        r == (value matches Some(v) && switches_on(v@)),
{
    match value {
        Some(v) => same_text(v, "1") || same_text(v, "true") || same_text(v, "on"),
        None => false,
    }
}

/// Decides whether an environment variable asks for a report: only by `1`.
pub fn env_is_one(value: Option<&str>) -> (r: bool)
    ensures
        r == (value matches Some(v) && v@ == "1"@),
{
    match value {
        Some(v) => same_text(v, "1"),
        None => false,
    }
}

} // verus!
