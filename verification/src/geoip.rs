//! The GeoLite2 city database: where it lives, when it is stale, and what a
//! lookup yields.
use vstd::prelude::*;

use crate::text::{chars_of, push_str, rfind_char, rfind_char_exec, starts_with, ends_with, eq_lit, slice_vec};

verus! {

/// File name of the database.
pub const DB_FILENAME: &'static str = "GeoLite2-City.mmdb";

/// Age, in seconds, after which the database is refreshed.
pub const MAX_AGE_SECS: u64 = 86400;

/// Where a lookup places an address.
#[derive(Clone, Debug)]
pub struct GeoRecord {
    /// Latitude, as the bit pattern of the IEEE-754 double.
    pub lat_bits: u64,
    /// Longitude, as the bit pattern of the IEEE-754 double.
    pub lon_bits: u64,
    /// English city name.
    pub city: Option<String>,
    /// ISO country code.
    pub country: Option<String>,
}

/// `a.join(b)` for Unix paths: an absolute `b` replaces `a`; otherwise a
/// separator is added unless `a` is empty or already ends with one.
pub open spec fn path_join(a: Seq<char>, b: Seq<char>) -> Seq<char> {
    if b.len() > 0 && b[0] == '/' {
        b
    } else if a.len() == 0 || a.last() == '/' {
        a + b
    } else {
        a + "/"@ + b
    }
}

/// Appends the path `b` to the path `a`, as `PathBuf::push` does on Unix.
pub fn path_push(a: &mut String, b: &str)
    ensures
        final(a)@ == path_join(old(a)@, b@),
{
    let bv = chars_of(b);
    if bv.len() > 0 && bv[0] == '/' {
        *a = b.to_string();
        return ;
    }
    let av = chars_of(a.as_str());
    if av.len() == 0 || av[av.len() - 1] == '/' {
        push_str(a, b);
    } else {
        push_str(a, "/");
        push_str(a, b);
    }
}

/// The configuration base directory: `$XDG_CONFIG_HOME`, else
/// `$HOME/.config`, else `.config`.
pub open spec fn config_base(xdg: Option<Seq<char>>, home: Option<Seq<char>>) -> Seq<char> {
    match xdg {
        Some(x) => x,
        None => match home {
            Some(h) => path_join(h, ".config"@),
            None => ".config"@,
        },
    }
}

/// The configuration base directory, given the values of `XDG_CONFIG_HOME`
/// and `HOME` (absent when unset).
pub fn config_base_dir(xdg_config_home: Option<&str>, home: Option<&str>) -> (r: String)
    ensures
        r@ == config_base(
            match xdg_config_home {
                Some(x) => Some(x@),
                None => None,
            },
            match home {
                Some(h) => Some(h@),
                None => None,
            },
        ),
{
    match xdg_config_home {
        Some(x) => x.to_string(),
        None => match home {
            Some(h) => {
                let mut s = h.to_string();
                path_push(&mut s, ".config");
                s
            },
            None => {
                proof {
                    reveal_strlit(".config");
                }
                ".config".to_string()
            },
        },
    }
}

/// The database path under the configuration base `base`.
pub open spec fn db_path_spec(base: Seq<char>) -> Seq<char> {
    path_join(path_join(path_join(base, "atlasip"@), "geoip"@), "GeoLite2-City.mmdb"@)
}

/// The path of the database file, given the values of `XDG_CONFIG_HOME` and
/// `HOME`: `<config base>/atlasip/geoip/GeoLite2-City.mmdb`.
pub fn db_path(xdg_config_home: Option<&str>, home: Option<&str>) -> (r: String)
    ensures
        r@ == db_path_spec(
            config_base(
                match xdg_config_home {
                    Some(x) => Some(x@),
                    None => None,
                },
                match home {
                    Some(h) => Some(h@),
                    None => None,
                },
            ),
        ),
{
    let mut p = config_base_dir(xdg_config_home, home);
    path_push(&mut p, "atlasip");
    path_push(&mut p, "geoip");
    path_push(&mut p, DB_FILENAME);
    p
}

/// Whether the database must be downloaded again: it is missing, its age
/// could not be read, or it is older than a day. `age_secs` is the age of
/// the file (`u64::MAX` when its time stamp lies in the future), `None` when
/// the file's metadata could not be read.
pub fn needs_update(exists: bool, age_secs: Option<u64>) -> (r: bool)
    ensures
        r == needs_update_spec(exists, age_secs),
{
    if !exists {
        return true;
    }
    match age_secs {
        Some(a) => a > MAX_AGE_SECS,
        None => true,
    }
}

/// The database status shown to users: `"missing"`, `"outdated"` or `"ok"`.
pub fn db_status(exists: bool, age_secs: Option<u64>) -> (r: &'static str)
    ensures
        r@ == (if !exists {
            "missing"@
        } else if needs_update_spec(exists, age_secs) {
            "outdated"@
        } else {
            "ok"@
        }),
{
    if !exists {
        "missing"
    } else if needs_update(exists, age_secs) {
        "outdated"
    } else {
        "ok"
    }
}

/// The statement of [`needs_update`].
pub open spec fn needs_update_spec(exists: bool, age_secs: Option<u64>) -> bool {
    if !exists {
        true
    } else {
        match age_secs {
            Some(a) => a > MAX_AGE_SECS,
            None => true,
        }
    }
}

/// `s` without its trailing slashes.
pub open spec fn strip_slashes(s: Seq<char>) -> Seq<char>
    decreases s.len(),
{
    if s.len() > 0 && s.last() == '/' {
        strip_slashes(s.drop_last())
    } else {
        s
    }
}

/// The extension of the last component of a path, as `Path::extension`
/// gives it: the text after the last dot of the file name, unless the name
/// has no dot, its only dot is its first character, or it is `..`.
pub open spec fn extension_of(full: Seq<char>) -> Option<Seq<char>> {
    let path = strip_slashes(full);
    let name = match rfind_char(path, '/') {
        Some(i) => path.skip(i + 1),
        None => path,
    };
    match rfind_char(name, '.') {
        Some(j) => if j == 0 || name == ".."@ {
            None
        } else {
            Some(name.skip(j + 1))
        },
        None => None,
    }
}

/// Whether an archive entry is the database file (its extension is `mmdb`).
pub fn is_mmdb_entry(path: &str) -> (r: bool)
    ensures
        r == (extension_of(path@) == Some("mmdb"@)),
{
    let full = chars_of(path);
    let mut n: usize = full.len();
    proof {
        assert(full@.take(full.len() as int) =~= full@);
    }
    while n > 0 && full[n - 1] == '/'
        invariant
            n <= full.len(),
            full@ == path@,
            strip_slashes(full@) == strip_slashes(full@.take(n as int)),
        decreases n,
    {
        proof {
            assert(full@.take(n as int).drop_last() =~= full@.take(n - 1));
        }
        n -= 1;
    }
    let v = slice_vec(&full, 0, n);
    proof {
        assert(v@ =~= full@.take(n as int));
    }
    let name = match rfind_char_exec(&v, '/') {
        Some(i) => {
            let t = slice_vec(&v, i + 1, v.len());
            proof {
                assert(t@ =~= v@.skip(i + 1));
            }
            t
        },
        None => v,
    };
    match rfind_char_exec(&name, '.') {
        Some(j) => {
            if j == 0 || eq_lit(&name, "..") {
                false
            } else {
                let ext = slice_vec(&name, j + 1, name.len());
                proof {
                    assert(ext@ =~= name@.skip(j + 1));
                }
                eq_lit(&ext, "mmdb")
            }
        },
        None => false,
    }
}

/// Why no database could be taken out of a downloaded archive.
#[derive(Clone, Copy, PartialEq, Eq, Structural, Debug)]
pub enum ArchiveError {
    /// The archive could not be read up to a database entry.
    Unreadable,
    /// The archive was read to its end and holds no `.mmdb` file.
    NoDatabase,
}

/// The entries of a gzip-compressed tar archive, each as its path and its
/// contents, in archive order up to the first entry that could not be read,
/// and whether reading stopped at such an entry.
pub uninterp spec fn tar_gz_entries_spec(data: Seq<u8>) -> (Seq<(Seq<char>, Seq<u8>)>, bool);

/// Reads a `.tar.gz` archive with `flate2::read::GzDecoder` and
/// `tar::Archive::entries`: each entry's path (`to_string_lossy`) and the
/// bytes `std::io::Read::read_to_end` gives of it, in order, stopping at the
/// first entry, path or body that the crates report as an error. The contract
/// claims only that the result is a function of the bytes, named
/// `tar_gz_entries_spec`.
#[verifier::external_body]
fn tar_gz_entries(data: &[u8]) -> (r: (Vec<(String, Vec<u8>)>, bool))
    ensures
        (r.0.deep_view(), r.1) == tar_gz_entries_spec(data@),
{
    let mut archive = tar::Archive::new(flate2::read::GzDecoder::new(data));
    let mut out = Vec::new();
    let entries = match archive.entries() { Ok(e) => e, Err(_) => return (out, true) };
    for entry in entries {
        let mut entry = match entry { Ok(e) => e, Err(_) => return (out, true) };
        let path = match entry.path() { Ok(p) => p.to_string_lossy().into_owned(), Err(_) => return (out, true) };
        let mut buf = Vec::new();
        if std::io::Read::read_to_end(&mut entry, &mut buf).is_err() { return (out, true); }
        out.push((path, buf));
    }
    (out, false)
}

/// The contents of the first entry whose path has the extension `mmdb`.
pub open spec fn first_mmdb(es: Seq<(Seq<char>, Seq<u8>)>) -> Option<Seq<u8>>
    decreases es.len(),
{
    if es.len() == 0 {
        None
    } else if extension_of(es[0].0) == Some("mmdb"@) {
        Some(es[0].1)
    } else {
        first_mmdb(es.drop_first())
    }
}

/// What the installer takes from archive entries read as `es`, reading having
/// stopped at an unreadable entry when `failed`.
pub open spec fn mmdb_outcome(es: Seq<(Seq<char>, Seq<u8>)>, failed: bool) -> Result<Seq<u8>, ArchiveError> {
    match first_mmdb(es) {
        Some(b) => Ok(b),
        None => if failed {
            Err(ArchiveError::Unreadable)
        } else {
            Err(ArchiveError::NoDatabase)
        },
    }
}

/// Picks the database out of archive entries: the contents of the first
/// entry whose extension is `mmdb`; failing that, `Unreadable` when reading
/// stopped at a bad entry, else `NoDatabase`.
pub fn mmdb_from_entries(entries: Vec<(String, Vec<u8>)>, failed: bool) -> (r: Result<Vec<u8>, ArchiveError>)
    ensures
        match r {
            Ok(b) => mmdb_outcome(entries.deep_view(), failed) == Ok::<Seq<u8>, ArchiveError>(b@),
            Err(e) => mmdb_outcome(entries.deep_view(), failed) == Err::<Seq<u8>, ArchiveError>(e),
        },
{
    let ghost es = entries.deep_view();
    let mut list = entries;
    let mut i: usize = 0;
    proof {
        assert(es.skip(0) =~= es);
    }
    while i < list.len()
        invariant
            i <= list.len(),
            es == list.deep_view(),
            es == entries.deep_view(),
            first_mmdb(es) == first_mmdb(es.skip(i as int)),
        decreases list.len() - i,
    {
        let hit = is_mmdb_entry(list[i].0.as_str());
        let ghost entry = list@[i as int];
        proof {
            assert(es.skip(i as int)[0] == es[i as int]);
            assert(es[i as int] == entry.deep_view());
        }
        if hit {
            let (_, bytes) = list.remove(i);
            proof {
                assert(bytes == entry.1);
                assert(bytes.deep_view() =~= bytes@);
                assert(first_mmdb(es.skip(i as int)) == Some(es[i as int].1));
            }
            return Ok(bytes);
        }
        proof {
            assert(es.skip(i as int).drop_first() =~= es.skip(i + 1));
        }
        i += 1;
    }
    proof {
        assert(es.skip(i as int).len() == 0);
    }
    if failed {
        Err(ArchiveError::Unreadable)
    } else {
        Err(ArchiveError::NoDatabase)
    }
}

/// Takes the GeoLite2 database out of a downloaded `.tar.gz` archive.
pub fn mmdb_from_archive(data: &[u8]) -> (r: Result<Vec<u8>, ArchiveError>)
    ensures
        match r {
            Ok(b) => mmdb_outcome(tar_gz_entries_spec(data@).0, tar_gz_entries_spec(data@).1)
                == Ok::<Seq<u8>, ArchiveError>(b@),
            Err(e) => mmdb_outcome(tar_gz_entries_spec(data@).0, tar_gz_entries_spec(data@).1)
                == Err::<Seq<u8>, ArchiveError>(e),
        },
{
    let (entries, failed) = tar_gz_entries(data);
    mmdb_from_entries(entries, failed)
}

} // verus!
