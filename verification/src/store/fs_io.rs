//! Layout of the object tree.
//!
//! An object id is cut into chunks of a fixed width. The first chunks name
//! nested directories, one per chunk; what is left of the id names the file
//! inside the innermost directory.
use vstd::prelude::*;
use vstd::string::*;

verus! {

/// Number of characters of an object id that name one directory level.
pub const DIRECTORY_NAME_LENGTH: usize = 2;

/// Position in `id` at which chunk number `i` starts, for chunks of `width`
/// characters; the length of `id` once the chunks are exhausted.
pub open spec fn chunk_start(id: Seq<char>, width: nat, i: nat) -> int {
    if i * width <= id.len() {
        (i * width) as int
    } else {
        id.len() as int
    }
}

/// Chunk number `i` of `id`: `width` characters, fewer for the last chunk of an
/// id whose length is no multiple of `width`, none beyond it.
pub open spec fn chunk(id: Seq<char>, width: nat, i: nat) -> Seq<char> {
    id.subrange(chunk_start(id, width, i), chunk_start(id, width, i + 1))
}

/// Number of non-empty chunks of `id`.
pub open spec fn chunk_count(id: Seq<char>, width: nat) -> nat
    recommends
        width > 0,
{
    ((id.len() + width - 1) / (width as int)) as nat
}

/// The first `count` chunks of `id`, separated by `/`.
pub open spec fn joined_chunks(id: Seq<char>, width: nat, count: nat) -> Seq<char>
    decreases count,
{
    if count == 0 {
        Seq::empty()
    } else if count == 1 {
        chunk(id, width, 0)
    } else {
        joined_chunks(id, width, (count - 1) as nat) + seq!['/'] + chunk(
            id,
            width,
            (count - 1) as nat,
        )
    }
}

/// Number of chunks of `id` that become directories when at most `depth` levels
/// are wanted.
pub open spec fn directory_levels(id: Seq<char>, depth: nat, width: nat) -> nat
    recommends
        width > 0,
{
    if depth <= chunk_count(id, width) {
        depth
    } else {
        chunk_count(id, width)
    }
}

/// Directory part of the location of `id`.
pub open spec fn directory_of(id: Seq<char>, depth: nat, width: nat) -> Seq<char>
    recommends
        width > 0,
{
    joined_chunks(id, width, directory_levels(id, depth, width))
}

/// File name part of the location of `id`: the id without the characters that
/// went into the directory.
pub open spec fn filename_of(id: Seq<char>, depth: nat, width: nat) -> Seq<char>
    recommends
        width > 0,
{
    id.skip(chunk_start(id, width, depth))
}

proof fn lemma_chunk_start_step(id: Seq<char>, width: nat, i: nat)
    requires
        width > 0,
    ensures
        chunk_start(id, width, i) < id.len() ==> chunk_start(id, width, i) == i * width,
        chunk_start(id, width, i) < id.len() ==> chunk_start(id, width, i + 1) == (if id.len()
            - chunk_start(id, width, i) <= width {
            id.len() as int
        } else {
            chunk_start(id, width, i) + width
        }),
        chunk_start(id, width, i) == id.len() ==> chunk_start(id, width, i + 1) == id.len(),
        0 <= chunk_start(id, width, i) <= id.len(),
{
    assert((i + 1) * width == i * width + width) by (nonlinear_arith);
    assert(i * width >= 0) by (nonlinear_arith);
}

proof fn lemma_chunk_count_bound(len: nat, width: nat, i: nat)
    requires
        width > 0,
    ensures
        i * width < len <==> i < ((len + width - 1) / (width as int)),
{
    let q = (len + width - 1) / (width as int);
    vstd::arithmetic::div_mod::lemma_fundamental_div_mod((len + width - 1) as int, width as int);
    vstd::arithmetic::div_mod::lemma_mod_bound((len + width - 1) as int, width as int);
    let r = (len + width - 1) % (width as int);
    assert(len + width - 1 == width * q + r);
    if i < q {
        assert(width * (i + 1) <= width * q) by (nonlinear_arith)
            requires
                i + 1 <= q,
                width > 0,
        ;
        assert(width * (i + 1) == i * width + width) by (nonlinear_arith);
    } else {
        assert(width * q <= width * i) by (nonlinear_arith)
            requires
                q <= i,
                width > 0,
        ;
        assert(width * i == i * width) by (nonlinear_arith);
    }
}

/// Cuts an object id into chunks of two characters; the last chunk of an id of
/// odd length has one.
pub fn transform_id_into_chunks<'a>(id: &'a str) -> (chunks: Vec<&'a str>)
    ensures
        chunks@.len() == chunk_count(id@, DIRECTORY_NAME_LENGTH as nat),
        forall|i: int|
            0 <= i < chunks@.len() ==> (#[trigger] chunks@[i])@ == chunk(
                id@,
                DIRECTORY_NAME_LENGTH as nat,
                i as nat,
            ),
{
    let len = id.unicode_len();
    let mut chunks: Vec<&'a str> = Vec::new();
    let mut pos: usize = 0;
    while pos < len
        invariant
            len == id@.len(),
            pos <= len,
            pos == chunk_start(id@, 2, chunks@.len()),
            chunks@.len() <= chunk_count(id@, 2),
            forall|i: int|
                0 <= i < chunks@.len() ==> (#[trigger] chunks@[i])@ == chunk(id@, 2, i as nat),
        decreases len - pos,
    {
        proof {
            lemma_chunk_start_step(id@, 2, chunks@.len());
            lemma_chunk_count_bound(id@.len(), 2, chunks@.len());
        }
        let end: usize = if len - pos <= 2 {
            len
        } else {
            pos + 2
        };
        let piece = id.substring_char(pos, end);
        chunks.push(piece);
        pos = end;
    }
    proof {
        lemma_chunk_start_step(id@, 2, chunks@.len());
        lemma_chunk_count_bound(id@.len(), 2, chunks@.len());
    }
    chunks
}

/// Splits an object id into the directory that holds the object and the name
/// of its file.
///
/// The first `directory_depth` chunks of `directory_name_length` characters
/// become nested directories, joined by `/`; the rest of the id is the file
/// name. An id with fewer chunks than `directory_depth` goes into directories
/// entirely and leaves an empty file name.
pub fn split_id_into_directory_and_filename(
    id: &str,
    directory_depth: usize,
    directory_name_length: usize,
) -> (location: (String, String))
    requires
        directory_name_length > 0,
    ensures
        location.0@ == directory_of(id@, directory_depth as nat, directory_name_length as nat),
        location.1@ == filename_of(id@, directory_depth as nat, directory_name_length as nat),
{
    let ghost width = directory_name_length as nat;
    let len = id.unicode_len();
    let mut directory = String::new();
    let mut pos: usize = 0;
    let mut taken: usize = 0;
    while taken < directory_depth && pos < len
        invariant
            width == directory_name_length,
            width > 0,
            len == id@.len(),
            pos <= len,
            taken <= directory_depth,
            pos == chunk_start(id@, width, taken as nat),
            taken <= chunk_count(id@, width),
            directory@ == joined_chunks(id@, width, taken as nat),
        decreases len - pos,
    {
        proof {
            lemma_chunk_start_step(id@, width, taken as nat);
            lemma_chunk_count_bound(id@.len(), width, taken as nat);
            reveal_strlit("/");
        }
        let end: usize = if len - pos <= directory_name_length {
            len
        } else {
            pos + directory_name_length
        };
        if taken > 0 {
            directory.append("/");
        }
        directory.append(id.substring_char(pos, end));
        assert(directory@ == joined_chunks(id@, width, (taken + 1) as nat));
        pos = end;
        taken = taken + 1;
    }
    proof {
        lemma_chunk_count_bound(id@.len(), width, taken as nat);
        if taken < directory_depth {
            assert(taken * width <= directory_depth * width) by (nonlinear_arith)
                requires
                    taken <= directory_depth,
                    width >= 0,
            ;
        }
    }
    let filename = id.substring_char(pos, len).to_owned();
    (directory, filename)
}

/// Where an object lives below the storage root.
#[derive(Debug, PartialEq, Eq)]
pub struct SliceLocation {
    /// The directory that holds the object's file.
    pub directory: String,
    /// The object's file.
    pub path: String,
}

/// Directory of the object `id` below `storage_location`.
pub open spec fn slice_directory(storage_location: Seq<char>, id: Seq<char>, depth: nat) -> Seq<
    char,
> {
    storage_location + seq!['/'] + directory_of(id, depth, DIRECTORY_NAME_LENGTH as nat)
}

/// File of the object `id` below `storage_location`.
pub open spec fn slice_path(storage_location: Seq<char>, id: Seq<char>, depth: nat) -> Seq<char> {
    slice_directory(storage_location, id, depth) + seq!['/'] + filename_of(
        id,
        depth,
        DIRECTORY_NAME_LENGTH as nat,
    )
}

/// Computes where the object `id` is kept: the directory to create before a
/// write, and the file to write or read. Both writing and reading go through
/// this function, so they address the same file.
pub fn slice_location(storage_location: &str, id: &str, storage_directory_depth: usize) -> (location:
    SliceLocation)
    ensures
        location.directory@ == slice_directory(storage_location@, id@, storage_directory_depth as nat),
        location.path@ == slice_path(storage_location@, id@, storage_directory_depth as nat),
{
    let (directory, filename) = split_id_into_directory_and_filename(
        id,
        storage_directory_depth,
        DIRECTORY_NAME_LENGTH,
    );
    proof {
        reveal_strlit("/");
    }
    let mut full_directory = storage_location.to_owned();
    full_directory.append("/");
    full_directory.append(directory.as_str());
    let mut path = full_directory.clone();
    path.append("/");
    path.append(filename.as_str());
    SliceLocation { directory: full_directory, path }
}

/// `s` without its `/`.
pub open spec fn without_slashes(s: Seq<char>) -> Seq<char>
    decreases s.len(),
{
    if s.len() == 0 {
        Seq::empty()
    } else if s.last() == '/' {
        without_slashes(s.drop_last())
    } else {
        without_slashes(s.drop_last()).push(s.last())
    }
}

/// Whether `s` holds no `/`.
pub open spec fn slash_free(s: Seq<char>) -> bool {
    forall|i: int| 0 <= i < s.len() ==> s[i] != '/'
}

proof fn lemma_without_slashes_slash()
    ensures
        without_slashes(seq!['/']) == Seq::<char>::empty(),
{
    let s = seq!['/'];
    assert(s.last() == '/');
    assert(s.drop_last().len() == 0);
    assert(without_slashes(s.drop_last()) =~= Seq::<char>::empty());
}

proof fn lemma_without_slashes_add(a: Seq<char>, b: Seq<char>)
    ensures
        without_slashes(a + b) == without_slashes(a) + without_slashes(b),
    decreases b.len(),
{
    if b.len() == 0 {
        assert(a + b =~= a);
        assert(without_slashes(a) + without_slashes(b) =~= without_slashes(a));
    } else {
        lemma_without_slashes_add(a, b.drop_last());
        assert((a + b).drop_last() =~= a + b.drop_last());
        assert((a + b).last() == b.last());
        assert(without_slashes(a + b) =~= without_slashes(a) + without_slashes(b));
    }
}

proof fn lemma_without_slashes_free(s: Seq<char>)
    requires
        slash_free(s),
    ensures
        without_slashes(s) == s,
    decreases s.len(),
{
    if s.len() > 0 {
        assert(slash_free(s.drop_last())) by {
            assert forall|i: int| 0 <= i < s.drop_last().len() implies s.drop_last()[i] != '/' by {
                assert(s.drop_last()[i] == s[i]);
            }
        }
        lemma_without_slashes_free(s.drop_last());
        assert(s[s.len() - 1] != '/');
        assert(without_slashes(s) =~= s);
    } else {
        assert(without_slashes(s) =~= s);
    }
}

proof fn lemma_joined_chunks_hold_prefix(id: Seq<char>, width: nat, count: nat)
    requires
        width > 0,
        slash_free(id),
    ensures
        without_slashes(joined_chunks(id, width, count)) == id.take(chunk_start(id, width, count)),
    decreases count,
{
    lemma_chunk_start_step(id, width, 0);
    if count == 0 {
        assert(id.take(0) =~= Seq::empty());
    } else {
        let last = (count - 1) as nat;
        lemma_chunk_start_step(id, width, last);
        let piece = chunk(id, width, last);
        assert(slash_free(piece)) by {
            assert forall|i: int| 0 <= i < piece.len() implies piece[i] != '/' by {
                assert(piece[i] == id[chunk_start(id, width, last) + i]);
            }
        }
        lemma_without_slashes_free(piece);
        if count == 1 {
            assert(piece =~= id.take(chunk_start(id, width, 1)));
        } else {
            lemma_joined_chunks_hold_prefix(id, width, last);
            let head = joined_chunks(id, width, last);
            lemma_without_slashes_add(head + seq!['/'], piece);
            lemma_without_slashes_add(head, seq!['/']);
            lemma_without_slashes_slash();
            assert(id.take(chunk_start(id, width, last)) + piece =~= id.take(
                chunk_start(id, width, count),
            ));
        }
    }
}

/// The location of an object spells its id: directory and file name, read
/// without the `/` between the chunks, are the id.
pub proof fn lemma_location_spells_id(id: Seq<char>, depth: nat, width: nat)
    requires
        width > 0,
        slash_free(id),
    ensures
        without_slashes(directory_of(id, depth, width) + seq!['/'] + filename_of(id, depth, width))
            == id,
{
    let levels = directory_levels(id, depth, width);
    lemma_joined_chunks_hold_prefix(id, width, levels);
    lemma_chunk_count_bound(id.len(), width, depth);
    lemma_chunk_count_bound(id.len(), width, levels);
    lemma_chunk_start_step(id, width, depth);
    lemma_chunk_start_step(id, width, levels);
    let directory = directory_of(id, depth, width);
    let filename = filename_of(id, depth, width);
    assert(slash_free(filename)) by {
        assert forall|i: int| 0 <= i < filename.len() implies filename[i] != '/' by {
            assert(filename[i] == id[chunk_start(id, width, depth) + i]);
        }
    }
    lemma_without_slashes_free(filename);
    lemma_without_slashes_add(directory + seq!['/'], filename);
    lemma_without_slashes_add(directory, seq!['/']);
    lemma_without_slashes_slash();
    assert(chunk_start(id, width, levels) == chunk_start(id, width, depth));
    assert(id.take(chunk_start(id, width, depth)) + filename =~= id);
}

/// Two objects with different ids live in different files, whatever the
/// storage root and the depth: a write of one never touches the other.
pub proof fn lemma_locations_differ(
    storage_location: Seq<char>,
    a: Seq<char>,
    b: Seq<char>,
    depth: nat,
)
    requires
        slash_free(a),
        slash_free(b),
        a != b,
    ensures
        slice_path(storage_location, a, depth) != slice_path(storage_location, b, depth),
{
    let width = DIRECTORY_NAME_LENGTH as nat;
    lemma_location_spells_id(a, depth, width);
    lemma_location_spells_id(b, depth, width);
    let prefix = storage_location + seq!['/'];
    let tail_a = directory_of(a, depth, width) + seq!['/'] + filename_of(a, depth, width);
    let tail_b = directory_of(b, depth, width) + seq!['/'] + filename_of(b, depth, width);
    assert(slice_path(storage_location, a, depth) =~= prefix + tail_a);
    assert(slice_path(storage_location, b, depth) =~= prefix + tail_b);
    assert((prefix + tail_a).skip(prefix.len() as int) =~= tail_a);
    assert((prefix + tail_b).skip(prefix.len() as int) =~= tail_b);
}

} // verus!
