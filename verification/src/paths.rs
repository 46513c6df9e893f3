//! Where files are kept: which directory, and which names below it.
use vstd::prelude::*;
use crate::config::Platform;
use crate::text;

verus! {

/// A directory that a path starts from.
#[derive(Debug)]
pub enum BaseDir {
    /// A directory given in the environment.
    Given(String),
    /// `/tmp`.
    Tmp,
    /// The directory for temporary files.
    SystemTemp,
    /// The user's cache directory.
    Cache,
    /// The user's configuration directory.
    UserConfig,
    /// The user's local data directory.
    DataLocal,
    /// The working directory.
    Working,
}

/// A path: the directory it starts from, and the names below it.
#[derive(Debug)]
pub struct Location {
    pub base: BaseDir,
    pub below: Vec<String>,
}

/// A path as a mathematical value.
pub open spec fn is_location(l: Location, base: BaseDir, below: Seq<Seq<char>>) -> bool {
    l.base == base && text::views(l.below@) =~= below
}

/// Where runtime files go: a directory from the environment before all, else
/// `/tmp`, or on Windows the program's own directory among the caches.
pub open spec fn runtime_location(
    platform: Platform,
    given: Option<String>,
    has_cache_dir: bool,
    filename: Seq<char>,
) -> (BaseDir, Seq<Seq<char>>) {
    match given {
        Some(dir) => (BaseDir::Given(dir), seq![filename]),
        None => match platform {
            Platform::Unix => (BaseDir::Tmp, seq![filename]),
            Platform::Windows => (
                if has_cache_dir {
                    BaseDir::Cache
                } else {
                    BaseDir::SystemTemp
                },
                seq!["nicotine"@, filename],
            ),
        },
    }
}

/// The path of a runtime file.
pub fn runtime_path(
    platform: Platform,
    given: Option<String>,
    has_cache_dir: bool,
    filename: &str,
) -> (r: Location)
    ensures
        ({
            let l = runtime_location(platform, given, has_cache_dir, filename@);
            is_location(r, l.0, l.1)
        }),
{
    let mut below: Vec<String> = Vec::new();
    match given {
        Some(dir) => {
            below.push(filename.to_owned());
            Location { base: BaseDir::Given(dir), below }
        },
        None => match platform {
            Platform::Unix => {
                below.push(filename.to_owned());
                Location { base: BaseDir::Tmp, below }
            },
            Platform::Windows => {
                below.push("nicotine".to_owned());
                below.push(filename.to_owned());
                let base: BaseDir = if has_cache_dir {
                    BaseDir::Cache
                } else {
                    BaseDir::SystemTemp
                };
                Location { base, below }
            },
        },
    }
}

pub fn lock_file_path(platform: Platform, given: Option<String>, has_cache_dir: bool) -> (r:
    Location)
    ensures
        ({
            let l = runtime_location(platform, given, has_cache_dir, "nicotine-cycle.lock"@);
            is_location(r, l.0, l.1)
        }),
{
    runtime_path(platform, given, has_cache_dir, "nicotine-cycle.lock")
}

pub fn index_file_path(platform: Platform, given: Option<String>, has_cache_dir: bool) -> (r:
    Location)
    ensures
        ({
            let l = runtime_location(platform, given, has_cache_dir, "nicotine-index"@);
            is_location(r, l.0, l.1)
        }),
{
    runtime_path(platform, given, has_cache_dir, "nicotine-index")
}

/// The configuration directory: one from the environment as it is, else the
/// program's own directory below the user's.
pub open spec fn config_location(given: Option<String>, has_config_dir: bool) -> (
    BaseDir,
    Seq<Seq<char>>,
) {
    match given {
        Some(dir) => (BaseDir::Given(dir), Seq::empty()),
        None => (
            if has_config_dir {
                BaseDir::UserConfig
            } else {
                BaseDir::Working
            },
            seq!["nicotine"@],
        ),
    }
}

pub fn config_dir(given: Option<String>, has_config_dir: bool) -> (r: Location)
    ensures
        ({
            let l = config_location(given, has_config_dir);
            is_location(r, l.0, l.1)
        }),
{
    let mut below: Vec<String> = Vec::new();
    match given {
        Some(dir) => Location { base: BaseDir::Given(dir), below },
        None => {
            below.push("nicotine".to_owned());
            let base: BaseDir = if has_config_dir {
                BaseDir::UserConfig
            } else {
                BaseDir::Working
            };
            Location { base, below }
        },
    }
}

pub fn config_path(given: Option<String>, has_config_dir: bool) -> (r: Location)
    ensures
        ({
            let l = config_location(given, has_config_dir);
            is_location(r, l.0, l.1.push("config.toml"@))
        }),
{
    let mut r: Location = config_dir(given, has_config_dir);
    let ghost before = text::views(r.below@);
    r.below.push("config.toml".to_owned());
    assert(text::views(r.below@) == before.push(r.below@.last()@));
    r
}

/// Where preview positions are kept: always below the user's own
/// configuration directory.
pub fn preview_positions_path(has_config_dir: bool) -> (r: Location)
    ensures
        is_location(
            r,
            if has_config_dir {
                BaseDir::UserConfig
            } else {
                BaseDir::Working
            },
            seq!["nicotine"@, "preview_positions.toml"@],
        ),
{
    let mut r: Location = config_dir(None, has_config_dir);
    let ghost before = text::views(r.below@);
    r.below.push("preview_positions.toml".to_owned());
    assert(text::views(r.below@) == before.push(r.below@.last()@));
    assert(text::views(r.below@) =~= seq!["nicotine"@, "preview_positions.toml"@]);
    r
}

/// Where the installation's identifier is kept; nowhere without a local data
/// directory.
pub fn device_id_path(has_data_dir: bool) -> (r: Option<Location>)
    ensures
        r is Some == has_data_dir,
        r matches Some(l) ==> is_location(l, BaseDir::DataLocal, seq!["nicotine"@, "device_id"@]),
{
    if has_data_dir {
        let mut below: Vec<String> = Vec::new();
        below.push("nicotine".to_owned());
        below.push("device_id".to_owned());
        assert(text::views(below@) =~= seq!["nicotine"@, "device_id"@]);
        Some(Location { base: BaseDir::DataLocal, below })
    } else {
        None
    }
}

/// The name of the daemon's socket: one from the environment, else the
/// platform's.
pub fn socket_printname(platform: Platform, given: Option<String>) -> (r: String)
    ensures
        r@ == (match given {
            Some(s) => s@,
            None => match platform {
                Platform::Unix => "/tmp/nicotine.sock"@,
                Platform::Windows => "nicotine.sock"@,
            },
        }),
{
    match given {
        Some(s) => s,
        None => match platform {
            Platform::Unix => "/tmp/nicotine.sock".to_owned(),
            Platform::Windows => "nicotine.sock".to_owned(),
        },
    }
}

// ---------------------------------------------------------------------
// Comparing paths
// ---------------------------------------------------------------------

/// The pieces between slashes that count: an empty one does not, nor does a
/// dot that is not the first one.
pub open spec fn named_parts(pieces: Seq<Seq<char>>) -> Seq<Seq<char>>
    decreases pieces.len(),
{
    if pieces.len() == 0 {
        Seq::empty()
    } else {
        let front = named_parts(pieces.drop_last());
        if pieces.last().len() == 0 || (pieces.last() == "."@ && pieces.len() > 1) {
            front
        } else {
            front.push(pieces.last())
        }
    }
}

/// The components of a path: whether it starts at the root, and its names.
pub open spec fn components(path: Seq<char>) -> (bool, Seq<Seq<char>>) {
    (text::starts(path, "/"@), named_parts(text::split_on(path, '/')))
}

/// Whether two paths are the same, written in whatever way.
pub open spec fn same_components(a: Seq<char>, b: Seq<char>) -> bool {
    components(a) == components(b)
}

fn names_of(path: &str) -> (r: Vec<String>)
    ensures
        text::views(r@) == components(path@).1,
{
    let pieces: Vec<String> = text::split_char(path, '/');
    let ghost all = text::views(pieces@);
    let mut out: Vec<String> = Vec::new();
    let mut i: usize = 0;
    assert(all.take(0) == Seq::<Seq<char>>::empty());
    while i < pieces.len()
        invariant
            i <= pieces.len(),
            all == text::views(pieces@),
            text::views(out@) == named_parts(all.take(i as int)),
        decreases pieces.len() - i,
    {
        assert(all.take(i + 1).drop_last() == all.take(i as int));
        assert(all.take(i + 1).last() == pieces@[i as int]@);
        let piece: &str = pieces[i].as_str();
        if piece.unicode_len() > 0 && (i == 0 || !text::same(piece, ".")) {
            let ghost before = text::views(out@);
            out.push(pieces[i].clone());
            assert(text::views(out@) == before.push(pieces@[i as int]@));
        }
        i = i + 1;
    }
    assert(all.take(i as int) == all);
    out
}

/// Whether two paths have the same components.
pub fn same_path(a: &str, b: &str) -> (r: bool)
    ensures
        r == same_components(a@, b@),
{
    let x: Vec<String> = names_of(a);
    let y: Vec<String> = names_of(b);
    text::starts_with(a, "/") == text::starts_with(b, "/") && text::same_all(&x, &y)
}

/// A path goes on by the name behind a slash. A slash at the end and a single
/// dot add nothing.
pub proof fn law_components_follow_the_slashes(a: Seq<char>, name: Seq<char>)
    requires
        !name.contains('/'),
        name.len() > 0,
    ensures
        components(name) == (false, seq![name]),
        components("/"@ + name) == (true, if name == "."@ {
            Seq::empty()
        } else {
            seq![name]
        }),
        a.len() > 0 && name != "."@ ==> components(a + "/"@ + name) == (
            components(a).0,
            components(a).1.push(name),
        ),
        a.len() > 0 ==> components(a + "/"@ + "."@) == components(a),
        a.len() > 0 ==> components(a + "/"@) == components(a),
        components("/"@) == (true, Seq::<Seq<char>>::empty()),
        components(""@) == (false, Seq::<Seq<char>>::empty()),
        a.len() > 0 ==> components(a).0 == (a[0] == '/'),
{
    reveal_strlit("/");
    reveal_strlit(".");
    reveal_strlit("");
    let none = Seq::<char>::empty();
    assert("/"@ =~= seq!['/']);
    assert(""@ =~= none);
    assert(!"."@.contains('/')) by {
        assert forall|i: int| 0 <= i < "."@.len() implies "."@[i] != '/' by {}
    }
    assert(!none.contains('/'));
    text::law_first_piece_goes_to_the_separator(none, '/', none);
    text::law_first_piece_goes_to_the_separator(name, '/', none);
    text::law_first_piece_goes_to_the_separator("."@, '/', none);
    lemma_rooted(none);
    lemma_rooted(name);
    lemma_rooted(a);
    // one name
    let one = seq![name];
    assert(one.drop_last() =~= Seq::<Seq<char>>::empty());
    assert(named_parts(one) =~= one) by {
        reveal_with_fuel(named_parts, 2);
    }
    let empty_piece = seq![none];
    assert(empty_piece.drop_last() =~= Seq::<Seq<char>>::empty());
    assert(named_parts(empty_piece) =~= Seq::<Seq<char>>::empty()) by {
        reveal_with_fuel(named_parts, 2);
    }
    // behind a slash at the front
    text::law_separator_parts_the_pieces(none, '/', name);
    assert(none + seq!['/'] + name =~= "/"@ + name);
    lemma_next_part(seq![none], name);
    assert(seq![none] + seq![name] =~= seq![none].push(name));
    lemma_rooted("/"@ + name);
    assert(named_parts(seq![none].push(name)) =~= if name == "."@ {
        Seq::empty()
    } else {
        seq![name]
    });
    text::law_separator_parts_the_pieces(none, '/', none);
    assert(none + seq!['/'] + none =~= "/"@);
    assert(seq![none] + seq![none] =~= seq![none].push(none));
    lemma_next_part(seq![none], none);
    lemma_rooted("/"@);
    if a.len() > 0 {
        let pieces = text::split_on(a, '/');
        text::law_pieces_make_up_the_text(a, '/');
        text::law_separator_parts_the_pieces(a, '/', name);
        text::law_separator_parts_the_pieces(a, '/', "."@);
        text::law_separator_parts_the_pieces(a, '/', none);
        assert(pieces + seq![name] =~= pieces.push(name));
        assert(pieces + seq!["."@] =~= pieces.push("."@));
        assert(pieces + seq![none] =~= pieces.push(none));
        assert(a + "/"@ + none =~= a + "/"@);
        lemma_next_part(pieces, name);
        lemma_next_part(pieces, "."@);
        lemma_next_part(pieces, none);
        lemma_rooted(a + "/"@ + name);
        lemma_rooted(a + "/"@ + "."@);
        lemma_rooted(a + "/"@);
    }
    if text::starts(name, "/"@) {
        assert(name[0] == '/');
        assert(name.contains('/'));
    }
}

proof fn lemma_rooted(path: Seq<char>)
    ensures
        text::starts(path, "/"@) == (path.len() > 0 && path[0] == '/'),
{
    reveal_strlit("/");
    if path.len() > 0 {
        assert(path.take(1)[0] == path[0]);
        if path[0] == '/' {
            assert(path.take(1) =~= "/"@);
        }
    }
}

proof fn lemma_next_part(pieces: Seq<Seq<char>>, name: Seq<char>)
    requires
        pieces.len() > 0,
    ensures
        named_parts(pieces.push(name)) == (if name.len() == 0 || name == "."@ {
            named_parts(pieces)
        } else {
            named_parts(pieces).push(name)
        }),
{
    assert(pieces.push(name).drop_last() =~= pieces);
}

/// A directory that was given is used as it is; otherwise the platform's own
/// place is, on Windows below a directory of the program's name.
pub proof fn law_given_directory_comes_first(
    platform: Platform,
    dir: String,
    has_cache_dir: bool,
    has_config_dir: bool,
    filename: Seq<char>,
)
    ensures
        runtime_location(platform, Some(dir), has_cache_dir, filename).0 == BaseDir::Given(dir),
        runtime_location(platform, Some(dir), has_cache_dir, filename).1 == seq![filename],
        runtime_location(Platform::Unix, None, has_cache_dir, filename) == (
            BaseDir::Tmp,
            seq![filename],
        ),
        runtime_location(Platform::Windows, None, true, filename) == (
            BaseDir::Cache,
            seq!["nicotine"@, filename],
        ),
        runtime_location(Platform::Windows, None, false, filename) == (
            BaseDir::SystemTemp,
            seq!["nicotine"@, filename],
        ),
        config_location(Some(dir), has_config_dir) == (
            BaseDir::Given(dir),
            Seq::<Seq<char>>::empty(),
        ),
        config_location(None, true) == (BaseDir::UserConfig, seq!["nicotine"@]),
        config_location(None, false) == (BaseDir::Working, seq!["nicotine"@]),
{
}

/// A location is its base and the names below it, in order.
pub proof fn law_location_is_its_names(l: Location, base: BaseDir, below: Seq<Seq<char>>, i: int)
    requires
        is_location(l, base, below),
    ensures
        l.base == base,
        l.below@.len() == below.len(),
        0 <= i < below.len() ==> l.below@[i]@ == below[i],
{
    assert(text::views(l.below@).len() == below.len());
    if 0 <= i < below.len() {
        assert(text::views(l.below@)[i] == below[i]);
    }
}

/// Two spellings of one path are the same path, whichever comes first, and
/// paths to different names are not.
pub proof fn law_spelling_does_not_matter(a: Seq<char>, m: Seq<char>, n: Seq<char>)
    requires
        a.len() > 0,
        m.len() > 0,
        n.len() > 0,
        !m.contains('/'),
        !n.contains('/'),
        m != "."@,
        n != "."@,
    ensures
        same_components(a, a),
        same_components(a + "/"@, a),
        same_components(a, a + "/"@ + "."@),
        same_components(a + "/"@ + m, a + "/"@ + n) == (m == n),
        !same_components(a, a + "/"@ + m),
        !same_components(m, "/"@ + m),
{
    law_components_follow_the_slashes(a, m);
    law_components_follow_the_slashes(a, n);
    let c = components(a).1;
    assert(c.push(m).last() == m && c.push(n).last() == n);
    assert(c.push(m).len() == c.len() + 1);
}

} // verus!
