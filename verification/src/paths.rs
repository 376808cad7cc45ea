//! Where the history database, the daemon lock and the panel's control
//! socket live. Paths are byte strings, as Unix paths are.

use vstd::prelude::*;
use vstd::string::*;

verus! {

/// The bytes of a text made of ASCII characters.
pub open spec fn ascii_bytes(s: Seq<char>) -> Seq<u8> {
    Seq::new(s.len(), |i: int| s[i] as u8)
}

/// The bytes of an optional path.
pub open spec fn opt_bytes(p: Option<Vec<u8>>) -> Option<Seq<u8>> {
    match p {
        Some(v) => Some(v@),
        None => None,
    }
}

/// `PathBuf::push` of a relative component: a `/` goes between the two
/// unless the base is empty or already ends with one.
pub open spec fn join(base: Seq<u8>, name: Seq<u8>) -> Seq<u8> {
    if base.len() > 0 && base.last() != 0x2f {
        base + seq![0x2fu8] + name
    } else {
        base + name
    }
}

/// The bytes of an ASCII string slice.
fn ascii_literal(s: &str) -> (r: Vec<u8>)
    requires
        is_ascii(s),
    ensures
        r@ == ascii_bytes(s@),
{
    broadcast use vstd::string::is_ascii_spec_bytes;

    let r = vstd::slice::slice_to_vec(s.as_bytes());
    assert(r@ =~= ascii_bytes(s@));
    r
}

/// Appends a relative component to a path, as `PathBuf::push` does.
pub fn push_component(base: &Vec<u8>, name: &Vec<u8>) -> (r: Vec<u8>)
    ensures
        r@ == join(base@, name@),
{
    let mut r: Vec<u8> = Vec::new();
    let mut i: usize = 0;
    while i < base.len()
        invariant
            i <= base.len(),
            r@ == base@.take(i as int),
        decreases base.len() - i,
    {
        r.push(base[i]);
        i = i + 1;
    }
    assert(base@.take(base.len() as int) =~= base@);
    if base.len() > 0 && base[base.len() - 1] != 0x2f {
        r.push(0x2f);
    }
    let ghost head = r@;
    let mut j: usize = 0;
    while j < name.len()
        invariant
            j <= name.len(),
            r@ == head + name@.take(j as int),
        decreases name.len() - j,
    {
        r.push(name[j]);
        assert(name@.take(j + 1) =~= name@.take(j as int).push(name@[j as int]));
        j = j + 1;
    }
    assert(name@.take(name.len() as int) =~= name@);
    assert(r@ =~= join(base@, name@));
    r
}

/// The application's directory name.
pub open spec fn app_dir_name() -> Seq<u8> {
    ascii_bytes("clipway"@)
}

/// The database file's name.
pub open spec fn database_file_name() -> Seq<u8> {
    ascii_bytes("clipway.sqlite3"@)
}

/// The lock file's name.
pub open spec fn lock_file_name() -> Seq<u8> {
    ascii_bytes("daemon.lock"@)
}

/// The control socket's name.
pub open spec fn socket_file_name() -> Seq<u8> {
    ascii_bytes("gui.sock"@)
}

/// The directory that holds the data when the platform names none: `$HOME`
/// followed by `.local/share`, or none without a home directory.
pub open spec fn fallback_data_dir_spec(home: Option<Seq<u8>>) -> Option<Seq<u8>> {
    match home {
        Some(h) => Some(join(join(h, ascii_bytes(".local"@)), ascii_bytes("share"@))),
        None => None,
    }
}

/// The application's data directory: `clipway` under the platform's local
/// data directory, or under the fallback when the platform names none.
pub open spec fn data_dir_spec(local: Option<Seq<u8>>, home: Option<Seq<u8>>) -> Option<Seq<u8>> {
    let base = match local {
        Some(l) => Some(l),
        None => fallback_data_dir_spec(home),
    };
    match base {
        Some(b) => Some(join(b, app_dir_name())),
        None => None,
    }
}

/// `$HOME/.local/share`, when the home directory is known.
pub fn fallback_data_dir(home: Option<Vec<u8>>) -> (r: Option<Vec<u8>>)
    ensures
        opt_bytes(r) == fallback_data_dir_spec(opt_bytes(home)),
{
    match home {
        Some(h) => {
            proof {
                reveal_strlit(".local");
                reveal_strlit("share");
            }
            let local = push_component(&h, &ascii_literal(".local"));
            Some(push_component(&local, &ascii_literal("share")))
        },
        None => None,
    }
}

/// The data directory from the platform's local data directory (`local`)
/// and the home directory (`home`); `None` when neither is known.
pub fn data_dir(local: Option<Vec<u8>>, home: Option<Vec<u8>>) -> (r: Option<Vec<u8>>)
    ensures
        opt_bytes(r) == data_dir_spec(
            opt_bytes(local),
            opt_bytes(home),
        ),
{
    let base = match local {
        Some(l) => Some(l),
        None => fallback_data_dir(home),
    };
    match base {
        Some(b) => {
            proof {
                reveal_strlit("clipway");
            }
            Some(push_component(&b, &ascii_literal("clipway")))
        },
        None => None,
    }
}

/// The history database inside the data directory.
pub fn database_path(data_dir: &Vec<u8>) -> (r: Vec<u8>)
    ensures
        r@ == join(data_dir@, database_file_name()),
{
    proof {
        reveal_strlit("clipway.sqlite3");
    }
    push_component(data_dir, &ascii_literal("clipway.sqlite3"))
}

/// The daemon's lock file inside the data directory.
pub fn daemon_lock_path(data_dir: &Vec<u8>) -> (r: Vec<u8>)
    ensures
        r@ == join(data_dir@, lock_file_name()),
{
    proof {
        reveal_strlit("daemon.lock");
    }
    push_component(data_dir, &ascii_literal("daemon.lock"))
}

/// The panel's control socket inside the data directory.
pub fn gui_socket_path(data_dir: &Vec<u8>) -> (r: Vec<u8>)
    ensures
        r@ == join(data_dir@, socket_file_name()),
{
    proof {
        reveal_strlit("gui.sock");
    }
    push_component(data_dir, &ascii_literal("gui.sock"))
}

proof fn lemma_join_len(base: Seq<u8>, name: Seq<u8>)
    ensures
        join(base, name).len() == base.len() + name.len() + (if base.len() > 0 && base.last()
            != 0x2f {
            1int
        } else {
            0int
        }),
        join(base, name).take(base.len() as int) == base,
        join(base, name).skip(join(base, name).len() - name.len()) == name,
{
    assert(join(base, name).take(base.len() as int) =~= base);
    assert(join(base, name).skip(join(base, name).len() - name.len()) =~= name);
}

/// The database, the lock file and the socket are three different files,
/// each directly inside the data directory.
pub proof fn lemma_paths_distinct(data_dir: Seq<u8>)
    ensures
        join(data_dir, database_file_name()) != join(data_dir, lock_file_name()),
        join(data_dir, database_file_name()) != join(data_dir, socket_file_name()),
        join(data_dir, lock_file_name()) != join(data_dir, socket_file_name()),
        join(data_dir, database_file_name()).take(data_dir.len() as int) == data_dir,
        join(data_dir, lock_file_name()).take(data_dir.len() as int) == data_dir,
        join(data_dir, socket_file_name()).take(data_dir.len() as int) == data_dir,
{
    reveal_strlit("clipway.sqlite3");
    reveal_strlit("daemon.lock");
    reveal_strlit("gui.sock");
    lemma_join_len(data_dir, database_file_name());
    lemma_join_len(data_dir, lock_file_name());
    lemma_join_len(data_dir, socket_file_name());
}

} // verus!
