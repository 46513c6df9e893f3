//! Whether a newer release is out.
use vstd::prelude::*;
use crate::numerals;
use crate::text;

verus! {

/// Whether the running version is the latest. Unknown until a check has
/// succeeded.
#[derive(Debug, PartialEq, Eq)]
pub enum UpdateStatus {
    UpToDate,
    Outdated { version: String, url: String },
}

/// Why a version cannot be read.
#[derive(Debug, PartialEq, Eq)]
pub enum VersionError {
    /// Not three parts.
    Format { version: String },
    /// A part that is no number.
    Major,
    Minor,
    Patch,
}

/// What a version text gives: its three numbers, or the first thing that is
/// wrong with it.
pub enum VersionReading {
    Numbers(nat, nat, nat),
    Format,
    Major,
    Minor,
    Patch,
}

/// Reads a version such as `0.2.1`.
pub open spec fn version_reading(version: Seq<char>) -> VersionReading {
    let parts = text::split_on(version, '.');
    if parts.len() != 3 {
        VersionReading::Format
    } else {
        match numerals::unsigned_to(parts[0], 10, u32::MAX as nat) {
            None => VersionReading::Major,
            Some(major) => match numerals::unsigned_to(parts[1], 10, u32::MAX as nat) {
                None => VersionReading::Minor,
                Some(minor) => match numerals::unsigned_to(parts[2], 10, u32::MAX as nat) {
                    None => VersionReading::Patch,
                    Some(patch) => VersionReading::Numbers(major, minor, patch),
                },
            },
        }
    }
}

/// The error that a reading is answered with.
pub open spec fn error_of(reading: VersionReading, version: Seq<char>, e: VersionError) -> bool {
    match reading {
        VersionReading::Numbers(_, _, _) => false,
        VersionReading::Format => e matches VersionError::Format { version: v } && v@ == version,
        VersionReading::Major => e is Major,
        VersionReading::Minor => e is Minor,
        VersionReading::Patch => e is Patch,
    }
}

/// Parses a version such as `0.2.1` into (major, minor, patch).
pub fn parse_version(version: &str) -> (r: Result<(u32, u32, u32), VersionError>)
    ensures
        r matches Ok((a, b, c)) ==> version_reading(version@) == VersionReading::Numbers(
            a as nat,
            b as nat,
            c as nat,
        ),
        r matches Err(e) ==> error_of(version_reading(version@), version@, e),
{
    let parts: Vec<String> = text::split_char(version, '.');
    assert(text::views(parts@).len() == parts@.len());
    if parts.len() != 3 {
        return Err(VersionError::Format { version: version.to_owned() });
    }
    assert(text::views(parts@)[0] == parts@[0]@);
    assert(text::views(parts@)[1] == parts@[1]@);
    assert(text::views(parts@)[2] == parts@[2]@);
    let major: u32 = match numerals::parse_u32(parts[0].as_str()) {
        Some(n) => n,
        None => {
            return Err(VersionError::Major);
        },
    };
    let minor: u32 = match numerals::parse_u32(parts[1].as_str()) {
        Some(n) => n,
        None => {
            return Err(VersionError::Minor);
        },
    };
    let patch: u32 = match numerals::parse_u32(parts[2].as_str()) {
        Some(n) => n,
        None => {
            return Err(VersionError::Patch);
        },
    };
    Ok((major, minor, patch))
}

/// The order of versions: by major, then minor, then patch.
pub open spec fn newer(a: (nat, nat, nat), b: (nat, nat, nat)) -> bool {
    a.0 > b.0 || (a.0 == b.0 && (a.1 > b.1 || (a.1 == b.1 && a.2 > b.2)))
}

/// Whether `latest` is newer than `current`. An unreadable `latest` is
/// reported before an unreadable `current`.
pub fn is_newer_version(latest: &str, current: &str) -> (r: Result<bool, VersionError>)
    ensures
        match (version_reading(latest@), version_reading(current@)) {
            (VersionReading::Numbers(a, b, c), VersionReading::Numbers(x, y, z)) => r == Ok::<
                bool,
                VersionError,
            >(newer((a, b, c), (x, y, z))),
            (VersionReading::Numbers(_, _, _), bad) => r matches Err(e) && error_of(
                bad,
                current@,
                e,
            ),
            (bad, _) => r matches Err(e) && error_of(bad, latest@, e),
        },
{
    let l: (u32, u32, u32) = match parse_version(latest) {
        Ok(v) => v,
        Err(e) => {
            return Err(e);
        },
    };
    let c: (u32, u32, u32) = match parse_version(current) {
        Ok(v) => v,
        Err(e) => {
            return Err(e);
        },
    };
    Ok(l.0 > c.0 || (l.0 == c.0 && (l.1 > c.1 || (l.1 == c.1 && l.2 > c.2))))
}

/// No version is newer than itself, of two versions at most one is newer than
/// the other, of two different ones exactly one is, and newer than newer is
/// newer.
pub proof fn law_newer_is_an_order(
    a: (nat, nat, nat),
    b: (nat, nat, nat),
    c: (nat, nat, nat),
)
    ensures
        !newer(a, a),
        newer(a, b) ==> !newer(b, a),
        a != b ==> newer(a, b) || newer(b, a),
        newer(a, b) && newer(b, c) ==> newer(a, c),
{
}

/// What a release's tag and page say of the running version. The tag may
/// begin with `v`.
pub fn status_of_release(tag_name: &str, html_url: String, current: &str) -> (r: Result<
    UpdateStatus,
    VersionError,
>)
    ensures
        ({
            let latest = text::without_prefixes(tag_name@, "v"@);
            match (version_reading(latest), version_reading(current@)) {
                (VersionReading::Numbers(a, b, c), VersionReading::Numbers(x, y, z)) => if newer(
                    (a, b, c),
                    (x, y, z),
                ) {
                    r matches Ok(UpdateStatus::Outdated { version, url }) && version@ == latest
                        && url == html_url
                } else {
                    r matches Ok(UpdateStatus::UpToDate)
                },
                (VersionReading::Numbers(_, _, _), bad) => r matches Err(e) && error_of(
                    bad,
                    current@,
                    e,
                ),
                (bad, _) => r matches Err(e) && error_of(bad, latest, e),
            }
        }),
{
    let latest: String = text::trim_start_matches(tag_name, "v");
    match is_newer_version(latest.as_str(), current) {
        Ok(true) => Ok(UpdateStatus::Outdated { version: latest, url: html_url }),
        Ok(false) => Ok(UpdateStatus::UpToDate),
        Err(e) => Err(e),
    }
}

/// The update to announce: version and page of a newer release, nothing
/// where there is none.
pub fn check_for_updates(status: UpdateStatus) -> (r: Option<(String, String)>)
    ensures
        r == (match status {
            UpdateStatus::Outdated { version, url } => Some((version, url)),
            UpdateStatus::UpToDate => None,
        }),
{
    match status {
        UpdateStatus::Outdated { version, url } => Some((version, url)),
        UpdateStatus::UpToDate => None,
    }
}

/// The last status that a check found. A check that failed leaves it as it
/// was.
pub struct UpdateCache {
    pub status: Option<UpdateStatus>,
}

impl UpdateCache {
    pub fn new() -> (r: Self)
        ensures
            r.status is None,
    {
        UpdateCache { status: None }
    }

    pub fn record(&mut self, checked: Option<UpdateStatus>)
        ensures
            final(self).status == (if checked is Some {
                checked
            } else {
                old(self).status
            }),
    {
        if checked.is_some() {
            self.status = checked;
        }
    }

    pub fn get_update_status(&self) -> (r: Option<UpdateStatus>)
        ensures
            r == self.status,
    {
        match &self.status {
            Some(UpdateStatus::UpToDate) => Some(UpdateStatus::UpToDate),
            Some(UpdateStatus::Outdated { version, url }) => Some(
                UpdateStatus::Outdated { version: version.clone(), url: url.clone() },
            ),
            None => None,
        }
    }
}

/// Three numbers with dots between them are read as those numbers, and a text
/// with fewer dots is no version.
pub proof fn law_version_is_its_three_numbers(a: u32, b: u32, c: u32)
    ensures
        version_reading(
            numerals::decimal(a as nat) + seq!['.'] + (numerals::decimal(b as nat) + seq!['.']
                + numerals::decimal(c as nat)),
        ) == VersionReading::Numbers(a as nat, b as nat, c as nat),
        version_reading(numerals::decimal(a as nat)) is Format,
        version_reading(
            numerals::decimal(a as nat) + seq!['.'] + numerals::decimal(b as nat),
        ) is Format,
{
    let x = numerals::decimal(a as nat);
    let y = numerals::decimal(b as nat);
    let z = numerals::decimal(c as nat);
    numerals::law_decimal_has_digits_only(a as nat);
    numerals::law_decimal_has_digits_only(b as nat);
    numerals::law_decimal_has_digits_only(c as nat);
    numerals::law_written_number_reads_back(a as nat, 10, false, u32::MAX as nat);
    numerals::law_written_number_reads_back(b as nat, 10, false, u32::MAX as nat);
    numerals::law_written_number_reads_back(c as nat, 10, false, u32::MAX as nat);
    assert(!x.contains('.'));
    assert(!y.contains('.'));
    assert(!z.contains('.'));
    text::law_first_piece_goes_to_the_separator(x, '.', y);
    text::law_first_piece_goes_to_the_separator(x, '.', y + seq!['.'] + z);
    text::law_first_piece_goes_to_the_separator(y, '.', z);
    text::law_first_piece_goes_to_the_separator(z, '.', z);
    let parts = text::split_on(x + seq!['.'] + (y + seq!['.'] + z), '.');
    assert(parts == seq![x] + (seq![y] + seq![z]));
    assert(parts.len() == 3 && parts[0] == x && parts[1] == y && parts[2] == z);
}

/// The major number counts first, the minor next and the patch last.
pub proof fn law_major_number_counts_first(a: (nat, nat, nat), b: (nat, nat, nat))
    ensures
        a.0 > b.0 ==> newer(a, b),
        a.0 == b.0 && a.1 > b.1 ==> newer(a, b),
        a.0 == b.0 && a.1 == b.1 && a.2 > b.2 ==> newer(a, b),
        a == b ==> !newer(a, b),
        newer(a, b) ==> !newer(b, a),
{
}

/// The part that could not be read is the one that the error names.
pub proof fn law_error_names_the_part(version: Seq<char>, e: VersionError, reading: VersionReading)
    requires
        error_of(reading, version, e),
    ensures
        reading is Format <==> e is Format,
        reading is Major <==> e is Major,
        reading is Minor <==> e is Minor,
        reading is Patch <==> e is Patch,
        !(reading is Numbers),
        e matches VersionError::Format { version: v } ==> v@ == version,
{
}

/// The first part that is no number decides the error.
pub proof fn law_first_bad_part_decides(a: Seq<char>, b: Seq<char>, c: Seq<char>)
    requires
        !a.contains('.'),
        !b.contains('.'),
        !c.contains('.'),
    ensures
        ({
            let r = version_reading(a + seq!['.'] + (b + seq!['.'] + c));
            let x = numerals::unsigned_to(a, 10, u32::MAX as nat);
            let y = numerals::unsigned_to(b, 10, u32::MAX as nat);
            let z = numerals::unsigned_to(c, 10, u32::MAX as nat);
            &&& r is Major <==> x is None
            &&& r is Minor <==> x is Some && y is None
            &&& r is Patch <==> x is Some && y is Some && z is None
            &&& r is Numbers <==> x is Some && y is Some && z is Some
            &&& !(r is Format)
        }),
{
    text::law_first_piece_goes_to_the_separator(a, '.', b + seq!['.'] + c);
    text::law_first_piece_goes_to_the_separator(b, '.', c);
    text::law_first_piece_goes_to_the_separator(c, '.', c);
    let parts = text::split_on(a + seq!['.'] + (b + seq!['.'] + c), '.');
    assert(parts == seq![a] + (seq![b] + seq![c]));
    assert(parts.len() == 3 && parts[0] == a && parts[1] == b && parts[2] == c);
}

} // verus!
