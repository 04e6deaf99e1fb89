//! License zones: regions of a repository under one license, the map that
//! assigns files to them, and the checks on zone definitions.
use vstd::prelude::*;
use crate::eval::glob_result;
use crate::spdx::{SpdxExpr, SpdxExprView, SpdxParseError, SpdxParseErrorView, parse_error_text, parse_spdx_expr, parse_spec, result_view};
use crate::text::{has_prefix, str_eq};

verus! {

impl SpdxExpr {
    /// A copy with the same view.
    pub fn duplicate(&self) -> (r: SpdxExpr)
        ensures
            r@ == self@,
        decreases self,
    {
        match self {
            SpdxExpr::Simple(l) => SpdxExpr::Simple(l.duplicate()),
            SpdxExpr::Or(a, b) => SpdxExpr::Or(Box::new(a.duplicate()), Box::new(b.duplicate())),
            SpdxExpr::And(a, b) => SpdxExpr::And(Box::new(a.duplicate()), Box::new(b.duplicate())),
            SpdxExpr::With(a, x) => SpdxExpr::With(Box::new(a.duplicate()), x.clone()),
        }
    }
}

/// A region of the repository under one license.
#[derive(Debug)]
pub struct LicenseZone {
    pub name: String,
    /// Glob patterns for the zone's files.
    pub paths: Vec<String>,
    pub license: SpdxExpr,
    /// All Rights Reserved.
    pub proprietary: bool,
    pub copyright: Option<String>,
}

/// A repository's license map: a default license and explicit zones.
#[derive(Debug)]
pub struct LicenseMap {
    pub root: String,
    pub default_license: SpdxExpr,
    pub zones: Vec<LicenseZone>,
}

/// Errors produced when building a license map from `.plasma.toml`.
#[derive(Debug)]
pub enum ZoneParseError {
    IoError(String),
    TomlError(String),
    MissingProject,
    MissingDefaultLicense,
    InvalidSpdx { zone: String, source: SpdxParseError },
}

impl ZoneParseError {
    /// The human-readable message of the error.
    pub fn to_string(&self) -> (s: String)
        ensures
            s@ == (match self {
                ZoneParseError::IoError(m) => "failed to read .plasma.toml: "@ + m@,
                ZoneParseError::TomlError(m) => "failed to parse .plasma.toml: "@ + m@,
                ZoneParseError::MissingProject => "missing [project] section in .plasma.toml"@,
                ZoneParseError::MissingDefaultLicense => "missing default-license in [project]"@,
                ZoneParseError::InvalidSpdx { zone, source } => "invalid SPDX expression in zone '"@
                    + zone@ + "': "@ + parse_error_text(source@),
            }),
    {
        match self {
            ZoneParseError::IoError(m) => {
                let mut s = String::from_str("failed to read .plasma.toml: ");
                s.append(m.as_str());
                s
            },
            ZoneParseError::TomlError(m) => {
                let mut s = String::from_str("failed to parse .plasma.toml: ");
                s.append(m.as_str());
                s
            },
            ZoneParseError::MissingProject => String::from_str(
                "missing [project] section in .plasma.toml",
            ),
            ZoneParseError::MissingDefaultLicense => String::from_str(
                "missing default-license in [project]",
            ),
            ZoneParseError::InvalidSpdx { zone, source } => {
                let mut s = String::from_str("invalid SPDX expression in zone '");
                s.append(zone.as_str());
                s.append("': ");
                let m = source.to_string();
                s.append(m.as_str());
                s
            },
        }
    }
}

/// The `[project]` section of `.plasma.toml`.
#[derive(Debug, Clone)]
pub struct ProjectSection {
    pub name: Option<String>,
    pub default_license: Option<String>,
}

/// A `[[zone]]` entry of `.plasma.toml`.
#[derive(Debug, Clone)]
pub struct ZoneSection {
    pub name: String,
    pub license: String,
    pub paths: Vec<String>,
    pub proprietary: bool,
    pub copyright: Option<String>,
}

/// The map a `.plasma.toml` describes, as an error or the default
/// expression and the zones' names and expressions.
pub open spec fn zones_ok(sections: Seq<ZoneSection>) -> Option<(Seq<char>, SpdxParseErrorView)>
    decreases sections.len(),
{
    if sections.len() == 0 {
        None
    } else {
        match parse_spec(sections[0].license@) {
            Err(e) => Some((sections[0].name@, e)),
            Ok(_) => zones_ok(sections.drop_first()),
        }
    }
}

/// Build a license map from the sections of a `.plasma.toml`: the project
/// section must name a default license, and every expression must parse
/// (the default first, then the zones in order).
#[verifier::loop_isolation(false)]
pub fn build_license_map(
    root: String,
    project: Option<ProjectSection>,
    zones: Option<Vec<ZoneSection>>,
) -> (r: Result<LicenseMap, ZoneParseError>)
    ensures
        match project {
            None => r matches Err(ZoneParseError::MissingProject),
            Some(p) => match p.default_license {
                None => r matches Err(ZoneParseError::MissingDefaultLicense),
                Some(d) => match parse_spec(d@) {
                    Err(e) => r matches Err(ZoneParseError::InvalidSpdx { zone, source }) && zone@
                        == "default"@ && source@ == e,
                    Ok(dv) => {
                        let sections = match zones {
                            Some(z) => z@,
                            None => seq![],
                        };
                        match zones_ok(sections) {
                            Some((name, e)) => r matches Err(
                                ZoneParseError::InvalidSpdx { zone, source },
                            ) && zone@ == name && source@ == e,
                            None => r matches Ok(m) && m.root@ == root@ && m.default_license@ == dv
                                && m.zones@.len() == sections.len() && forall|i: int|
                                0 <= i < sections.len() ==> {
                                    let z = #[trigger] m.zones@[i];
                                    &&& z.name@ == sections[i].name@
                                    &&& z.paths@ == sections[i].paths@
                                    &&& parse_spec(sections[i].license@) == Ok::<
                                        SpdxExprView,
                                        SpdxParseErrorView,
                                    >(z.license@)
                                    &&& z.proprietary == sections[i].proprietary
                                    &&& z.copyright == sections[i].copyright
                                },
                        }
                    },
                },
            },
        },
{
    let project = match project {
        Some(p) => p,
        None => return Err(ZoneParseError::MissingProject),
    };
    let default_text = match project.default_license {
        Some(d) => d,
        None => return Err(ZoneParseError::MissingDefaultLicense),
    };
    let default_license = match parse_spdx_expr(default_text.as_str()) {
        Ok(e) => e,
        Err(e) => {
            return Err(ZoneParseError::InvalidSpdx { zone: String::from_str("default"), source: e });
        },
    };
    let sections = match zones {
        Some(z) => z,
        None => Vec::new(),
    };
    let ghost secs = sections@;
    let mut out: Vec<LicenseZone> = Vec::new();
    let mut i: usize = 0;
    assert(secs.subrange(0, secs.len() as int) =~= secs);
    while i < sections.len()
        invariant
            i <= sections@.len(),
            sections@ == secs,
            zones_ok(secs) == zones_ok(secs.subrange(i as int, secs.len() as int)),
            out@.len() == i,
            forall|k: int|
                0 <= k < i ==> {
                    let z = #[trigger] out@[k];
                    &&& z.name@ == secs[k].name@
                    &&& z.paths@ == secs[k].paths@
                    &&& parse_spec(secs[k].license@) == Ok::<SpdxExprView, SpdxParseErrorView>(z.license@)
                    &&& z.proprietary == secs[k].proprietary
                    &&& z.copyright == secs[k].copyright
                },
        decreases sections@.len() - i,
    {
        let ghost rest = secs.subrange(i as int, secs.len() as int);
        assert(rest[0] == secs[i as int]);
        assert(rest.drop_first() =~= secs.subrange(i + 1, secs.len() as int));
        let section = &sections[i];
        let license = match parse_spdx_expr(section.license.as_str()) {
            Ok(e) => e,
            Err(e) => {
                return Err(ZoneParseError::InvalidSpdx { zone: section.name.clone(), source: e });
            },
        };
        out.push(
            LicenseZone {
                name: section.name.clone(),
                paths: clone_strings(&section.paths),
                license,
                proprietary: section.proprietary,
                copyright: section.copyright.clone(),
            },
        );
        i = i + 1;
    }
    Ok(LicenseMap { root, default_license, zones: out })
}

/// A copy of a vector of strings.
pub fn clone_strings(v: &Vec<String>) -> (r: Vec<String>)
    ensures
        r@ == v@,
{
    let mut r: Vec<String> = Vec::new();
    let mut i: usize = 0;
    while i < v.len()
        invariant
            i <= v@.len(),
            r@ == v@.subrange(0, i as int),
        decreases v@.len() - i,
    {
        r.push(v[i].clone());
        i = i + 1;
        assert(r@ =~= v@.subrange(0, i as int));
    }
    assert(v@.subrange(0, v@.len() as int) =~= v@);
    r
}

/// `base` joined with a relative `name` (a `/` between them unless `base`
/// is empty or ends with one).
pub open spec fn join_spec(base: Seq<char>, name: Seq<char>) -> Seq<char> {
    if base.len() == 0 {
        name
    } else if base.last() == '/' {
        base + name
    } else {
        base.push('/') + name
    }
}

fn join_path(base: &str, name: &str) -> (r: String)
    ensures
        r@ == join_spec(base@, name@),
{
    let n = base.unicode_len();
    if n == 0 {
        return String::from_str(name);
    }
    let mut s = String::from_str(base);
    if base.get_char(n - 1) != '/' {
        crate::text::push_char(&mut s, '/');
    }
    s.append(name);
    s
}

/// Choose the `.plasma.toml` of a repository: the one at the root, else
/// the one under `.machine_readable/6a2/`; the caller says which exist.
pub fn find_plasma_toml(repo_root: &str, at_root: bool, in_machine_readable: bool) -> (r: Result<
    String,
    String,
>)
    ensures
        at_root ==> (r matches Ok(p) && p@ == join_spec(repo_root@, ".plasma.toml"@)),
        !at_root && in_machine_readable ==> (r matches Ok(p) && p@ == join_spec(
            repo_root@,
            ".machine_readable/6a2/.plasma.toml"@,
        )),
        !at_root && !in_machine_readable ==> (r matches Err(m) && m@
            == ".plasma.toml not found in "@ + repo_root@ + " or .machine_readable/6a2/"@),
{
    if at_root {
        return Ok(join_path(repo_root, ".plasma.toml"));
    }
    if in_machine_readable {
        return Ok(join_path(repo_root, ".machine_readable/6a2/.plasma.toml"));
    }
    let mut m = String::from_str(".plasma.toml not found in ");
    m.append(repo_root);
    m.append(" or .machine_readable/6a2/");
    Err(m)
}

/// Name for what `Path::strip_prefix` gives for a path and a base, as text
/// (`None` when the base is not a prefix of the path).
pub uninterp spec fn path_relative(path: Seq<char>, base: Seq<char>) -> Option<Seq<char>>;

/// `std::path::Path::strip_prefix`, the remainder as text. The contract
/// names the result; it claims nothing of path normalisation.
#[verifier::external_body]
fn strip_path_prefix(path: &str, base: &str) -> (r: Option<String>)
    ensures
        match r {
            Some(x) => path_relative(path@, base@) == Some(x@),
            None => path_relative(path@, base@) is None,
        },
{
    std::path::Path::new(path).strip_prefix(base).ok().map(|p| p.to_string_lossy().to_string())
}

/// The path a file is matched under: relative to the root when it lies
/// below it, else as given.
pub open spec fn rel_of(file: Seq<char>, root: Seq<char>) -> Seq<char> {
    match path_relative(file, root) {
        Some(r) => r,
        None => file,
    }
}

fn relative_text(file: &str, root: &str) -> (r: String)
    ensures
        r@ == rel_of(file@, root@),
{
    match strip_path_prefix(file, root) {
        Some(r) => r,
        None => String::from_str(file),
    }
}

/// A zone pattern matches a path (malformed patterns match nothing).
pub open spec fn pattern_hits(pattern: Seq<char>, rel: Seq<char>) -> bool {
    glob_result(pattern, rel) == Some(true)
}

/// Some pattern of the zone matches the path.
pub open spec fn zone_hits(z: LicenseZone, rel: Seq<char>) -> bool {
    exists|k: int| 0 <= k < z.paths@.len() && pattern_hits(#[trigger] z.paths@[k]@, rel)
}

/// The name of the first zone matching the path.
pub open spec fn zone_of(zones: Seq<LicenseZone>, rel: Seq<char>) -> Option<Seq<char>>
    decreases zones.len(),
{
    if zones.len() == 0 {
        None
    } else if zone_hits(zones[0], rel) {
        Some(zones[0].name@)
    } else {
        zone_of(zones.drop_first(), rel)
    }
}

/// The first zone with a pattern matching the path.
pub open spec fn matched_zone(zones: Seq<LicenseZone>, rel: Seq<char>) -> Option<LicenseZone>
    decreases zones.len(),
{
    if zones.len() == 0 {
        None
    } else if zone_hits(zones[0], rel) {
        Some(zones[0])
    } else {
        matched_zone(zones.drop_first(), rel)
    }
}

fn zone_matches(zone: &LicenseZone, rel: &str) -> (r: bool)
    ensures
        r == zone_hits(*zone, rel@),
{
    let mut k: usize = 0;
    while k < zone.paths.len()
        invariant
            k <= zone.paths@.len(),
            forall|j: int| 0 <= j < k ==> !pattern_hits(#[trigger] zone.paths@[j]@, rel@),
        decreases zone.paths@.len() - k,
    {
        if let Some(true) = crate::eval::glob_match(zone.paths[k].as_str(), rel) {
            assert(pattern_hits(zone.paths@[k as int]@, rel@));
            return true;
        }
        k = k + 1;
    }
    false
}

fn first_zone_index(zones: &Vec<LicenseZone>, rel: &str) -> (r: Option<usize>)
    ensures
        match r {
            Some(i) => i < zones@.len() && zone_of(zones@, rel@) == Some(zones@[i as int].name@)
                && matched_zone(zones@, rel@) == Some(zones@[i as int]),
            None => zone_of(zones@, rel@) is None && matched_zone(zones@, rel@) is None,
        },
{
    let mut i: usize = 0;
    assert(zones@.subrange(0, zones@.len() as int) =~= zones@);
    while i < zones.len()
        invariant
            i <= zones@.len(),
            zone_of(zones@, rel@) == zone_of(zones@.subrange(i as int, zones@.len() as int), rel@),
            matched_zone(zones@, rel@) == matched_zone(
                zones@.subrange(i as int, zones@.len() as int),
                rel@,
            ),
        decreases zones@.len() - i,
    {
        let ghost rest = zones@.subrange(i as int, zones@.len() as int);
        assert(rest[0] == zones@[i as int]);
        assert(rest.drop_first() =~= zones@.subrange(i + 1, zones@.len() as int));
        if zone_matches(&zones[i], rel) {
            return Some(i);
        }
        i = i + 1;
    }
    None
}

/// The zone a file belongs to: the first zone with a pattern matching the
/// file's path relative to the map's root; `None` under the default license.
pub fn assign_file_to_zone(file_path: &str, license_map: &LicenseMap) -> (r: Option<String>)
    ensures
        match r {
            Some(n) => zone_of(license_map.zones@, rel_of(file_path@, license_map.root@)) == Some(
                n@,
            ),
            None => zone_of(license_map.zones@, rel_of(file_path@, license_map.root@)) is None,
        },
{
    let rel = relative_text(file_path, license_map.root.as_str());
    match first_zone_index(&license_map.zones, rel.as_str()) {
        Some(i) => Some(license_map.zones[i].name.clone()),
        None => None,
    }
}

/// The license a file is expected to carry: that of the zone whose
/// pattern matched it, else the default.
pub open spec fn expected_spec(file: Seq<char>, m: LicenseMap) -> SpdxExprView {
    match matched_zone(m.zones@, rel_of(file, m.root@)) {
        Some(z) => z.license@,
        None => m.default_license@,
    }
}

/// The expected license of a file under the map.
pub fn expected_license_for_file(file_path: &str, license_map: &LicenseMap) -> (r: SpdxExpr)
    ensures
        r@ == expected_spec(file_path@, *license_map),
{
    let rel = relative_text(file_path, license_map.root.as_str());
    match first_zone_index(&license_map.zones, rel.as_str()) {
        Some(i) => license_map.zones[i].license.duplicate(),
        None => license_map.default_license.duplicate(),
    }
}

/// The zone a file belongs to, given the root explicitly.
pub fn assign_zone<'a>(file: &str, root: &str, zones: &'a Vec<LicenseZone>) -> (r: Option<&'a str>)
    ensures
        match r {
            Some(n) => zone_of(zones@, rel_of(file@, root@)) == Some(n@),
            None => zone_of(zones@, rel_of(file@, root@)) is None,
        },
{
    let rel = relative_text(file, root);
    match first_zone_index(zones, rel.as_str()) {
        Some(i) => Some(zones[i].name.as_str()),
        None => None,
    }
}

/// The names of the zones matching a path, in zone order.
pub open spec fn matching_zones(zones: Seq<LicenseZone>, rel: Seq<char>) -> Seq<Seq<char>>
    decreases zones.len(),
{
    if zones.len() == 0 {
        seq![]
    } else {
        let rest = matching_zones(zones.drop_last(), rel);
        if zone_hits(zones.last(), rel) {
            rest.push(zones.last().name@)
        } else {
            rest
        }
    }
}

/// The files matched by more than one zone, with those zones' names.
pub open spec fn overlaps_spec(files: Seq<String>, root: Seq<char>, zones: Seq<LicenseZone>) -> Seq<
    (Seq<char>, Seq<Seq<char>>),
>
    decreases files.len(),
{
    if files.len() == 0 {
        seq![]
    } else {
        let rest = overlaps_spec(files.drop_last(), root, zones);
        let m = matching_zones(zones, rel_of(files.last()@, root));
        if m.len() > 1 {
            rest.push((files.last()@, m))
        } else {
            rest
        }
    }
}

/// The texts of a vector of strings.
pub open spec fn string_texts(v: Seq<String>) -> Seq<Seq<char>> {
    v.map_values(|s: String| s@)
}

/// The views of overlap entries.
pub open spec fn overlap_views(v: Seq<(String, Vec<String>)>) -> Seq<(Seq<char>, Seq<Seq<char>>)> {
    v.map_values(|p: (String, Vec<String>)| (p.0@, string_texts(p.1@)))
}

/// Find the files that match more than one zone.
pub fn detect_overlaps(files: &Vec<String>, root: &str, zones: &Vec<LicenseZone>) -> (r: Vec<
    (String, Vec<String>),
>)
    ensures
        overlap_views(r@) == overlaps_spec(files@, root@, zones@),
{
    let mut out: Vec<(String, Vec<String>)> = Vec::new();
    let mut f: usize = 0;
    while f < files.len()
        invariant
            f <= files@.len(),
            overlap_views(out@) == overlaps_spec(files@.subrange(0, f as int), root@, zones@),
        decreases files@.len() - f,
    {
        let ghost pre = files@.subrange(0, f + 1);
        assert(pre.drop_last() =~= files@.subrange(0, f as int));
        let rel = relative_text(files[f].as_str(), root);
        let mut names: Vec<String> = Vec::new();
        let mut z: usize = 0;
        while z < zones.len()
            invariant
                z <= zones@.len(),
                string_texts(names@) == matching_zones(zones@.subrange(0, z as int), rel@),
            decreases zones@.len() - z,
        {
            let ghost zpre = zones@.subrange(0, z + 1);
            assert(zpre.drop_last() =~= zones@.subrange(0, z as int));
            if zone_matches(&zones[z], rel.as_str()) {
                names.push(zones[z].name.clone());
                assert(string_texts(names@) =~= matching_zones(zpre, rel@));
            }
            z = z + 1;
        }
        assert(zones@.subrange(0, zones@.len() as int) =~= zones@);
        if names.len() > 1 {
            let ghost old_out = overlap_views(out@);
            out.push((files[f].clone(), names));
            assert(overlap_views(out@) =~= old_out.push((files@[f as int]@, string_texts(out@.last().1@))));
        }
        f = f + 1;
    }
    assert(files@.subrange(0, files@.len() as int) =~= files@);
    out
}

/// Problems with zone definitions.
#[derive(Debug, Clone)]
pub enum ZonePolicyError {
    /// A file matches several zones.
    Overlap { file: String, zones: Vec<String> },
    /// A zone matches no file.
    EmptyZone { zone_name: String },
    /// Two zones share a name.
    DuplicateName { name: String },
}

/// How often a name occurs among the zones.
pub open spec fn name_count(zones: Seq<LicenseZone>, name: Seq<char>) -> nat
    decreases zones.len(),
{
    if zones.len() == 0 {
        0
    } else {
        name_count(zones.drop_last(), name) + (if zones.last().name@ == name {
            1nat
        } else {
            0nat
        })
    }
}

/// The duplicated names, each reported once, at its second occurrence.
pub open spec fn duplicate_names(zones: Seq<LicenseZone>) -> Seq<Seq<char>>
    decreases zones.len(),
{
    if zones.len() == 0 {
        seq![]
    } else {
        let rest = duplicate_names(zones.drop_last());
        if name_count(zones, zones.last().name@) == 2 {
            rest.push(zones.last().name@)
        } else {
            rest
        }
    }
}

/// The names reported by zone errors (all of them duplicate-name errors).
pub open spec fn duplicate_errors(v: Seq<ZonePolicyError>) -> Seq<Seq<char>> {
    v.map_values(
        |e: ZonePolicyError|
            match e {
                ZonePolicyError::DuplicateName { name } => name@,
                _ => seq![],
            },
    )
}

fn count_name(zones: &Vec<LicenseZone>, upto: usize, name: &str) -> (r: usize)
    requires
        upto <= zones@.len(),
    ensures
        r == name_count(zones@.subrange(0, upto as int), name@),
{
    let mut c: usize = 0;
    let mut i: usize = 0;
    while i < upto
        invariant
            i <= upto,
            upto <= zones@.len(),
            c <= i,
            c == name_count(zones@.subrange(0, i as int), name@),
        decreases upto - i,
    {
        let ghost pre = zones@.subrange(0, i + 1);
        assert(pre.drop_last() =~= zones@.subrange(0, i as int));
        if str_eq(zones[i].name.as_str(), name) {
            c = c + 1;
        }
        i = i + 1;
    }
    c
}

/// Validate zone definitions: every name that occurs twice or more is
/// reported once, where it occurs the second time.
pub fn validate_zones(zones: &Vec<LicenseZone>) -> (r: Vec<ZonePolicyError>)
    ensures
        forall|i: int| 0 <= i < r@.len() ==> (#[trigger] r@[i]) is DuplicateName,
        duplicate_errors(r@) == duplicate_names(zones@),
{
    let mut errors: Vec<ZonePolicyError> = Vec::new();
    let mut i: usize = 0;
    while i < zones.len()
        invariant
            i <= zones@.len(),
            forall|k: int| 0 <= k < errors@.len() ==> (#[trigger] errors@[k]) is DuplicateName,
            duplicate_errors(errors@) == duplicate_names(zones@.subrange(0, i as int)),
        decreases zones@.len() - i,
    {
        let ghost pre = zones@.subrange(0, i + 1);
        assert(pre.drop_last() =~= zones@.subrange(0, i as int));
        let c = count_name(zones, i + 1, zones[i].name.as_str());
        if c == 2 {
            let ghost old_e = duplicate_errors(errors@);
            errors.push(ZonePolicyError::DuplicateName { name: zones[i].name.clone() });
            assert(duplicate_errors(errors@) =~= old_e.push(zones@[i as int].name@));
        }
        i = i + 1;
    }
    assert(zones@.subrange(0, zones@.len() as int) =~= zones@);
    errors
}

} // verus!
