//! What a reader of the mounted volume sees: the overlay over the image.

use crate::overlay;
use crate::path;
use vstd::prelude::*;

verus! {

/// The files of an image: the bytes at each key.
pub type Image = Map<Seq<char>, Seq<u8>>;

/// The bytes that a read at `key` gives, or `None` where no file is found:
/// the overlay answers if it has an answer, a tombstone hides the image, and
/// the image answers only if nothing is staged.
pub open spec fn read_through(staged: overlay::Staged, image: Image, key: Seq<char>) -> Option<
    Seq<u8>,
> {
    match overlay::answer(staged, key) {
        overlay::LookupView::Hit(e) => e.content(),
        overlay::LookupView::Deleted => None,
        overlay::LookupView::Miss => if image.contains_key(key) {
            Some(image[key])
        } else {
            None
        },
    }
}

/// With nothing staged, as in a new overlay and after everything staged has
/// been dropped, every read gives what the image has.
pub proof fn clean_overlay_shows_the_image(image: Image, p: Seq<char>)
    ensures
        read_through(Map::empty(), image, path::normalize(p)) == (if image.contains_key(
            path::normalize(p),
        ) {
            Some(image[path::normalize(p)])
        } else {
            None
        }),
{
}

/// A read under any spelling of the path gives the bytes written last,
/// whatever the image has there and whatever was staged there before. Other
/// paths read as before.
pub proof fn read_gives_what_was_written(
    staged: overlay::Staged,
    image: Image,
    p: Seq<char>,
    q: Seq<char>,
    content: Seq<u8>,
    mode: u16,
    mtime: u64,
)
    ensures
        ({
            let after = overlay::written(staged, path::normalize(p), content, mode, mtime);
            read_through(after, image, path::normalize(q)) == (if path::normalize(q)
                == path::normalize(p) {
                Some(content)
            } else {
                read_through(staged, image, path::normalize(q))
            })
        }),
{
}

/// A read under any spelling of the path gives the bytes of the file created
/// there. Other paths read as before.
pub proof fn read_gives_what_was_created(
    staged: overlay::Staged,
    image: Image,
    p: Seq<char>,
    q: Seq<char>,
    content: Seq<u8>,
    mode: u16,
    mtime: u64,
)
    ensures
        ({
            let after = overlay::with_new_file(staged, path::normalize(p), content, mode, mtime);
            read_through(after, image, path::normalize(q)) == (if path::normalize(q)
                == path::normalize(p) {
                Some(content)
            } else {
                read_through(staged, image, path::normalize(q))
            })
        }),
{
}

/// A deleted path reads as missing, even if the image has a file there.
/// Other paths read as before.
pub proof fn deleted_path_reads_as_missing(
    staged: overlay::Staged,
    image: Image,
    p: Seq<char>,
    q: Seq<char>,
)
    ensures
        ({
            let after = overlay::deleted(staged, path::normalize(p));
            read_through(after, image, path::normalize(q)) == (if path::normalize(q)
                == path::normalize(p) {
                None
            } else {
                read_through(staged, image, path::normalize(q))
            })
        }),
{
}

/// A directory has no bytes: where one is created no file is read, even if
/// the image has one there. Other paths read as before.
pub proof fn created_dir_reads_as_no_file(
    staged: overlay::Staged,
    image: Image,
    p: Seq<char>,
    q: Seq<char>,
    mode: u16,
    mtime: u64,
)
    ensures
        ({
            let after = overlay::with_new_dir(staged, path::normalize(p), mode, mtime);
            read_through(after, image, path::normalize(q)) == (if path::normalize(q)
                == path::normalize(p) {
                None
            } else {
                read_through(staged, image, path::normalize(q))
            })
        }),
{
}

/// After a rename that is not refused, between different paths, the
/// destination reads as the source did, the source reads as missing even if
/// the image has it, and other paths read as before.
pub proof fn renamed_file_reads_at_its_new_path(
    staged: overlay::Staged,
    image: Image,
    from: Seq<char>,
    to: Seq<char>,
    q: Seq<char>,
)
    requires
        overlay::rename_refusal(staged, path::normalize(from), path::normalize(to)) is None,
        path::normalize(from) != path::normalize(to),
    ensures
        ({
            let a = path::normalize(from);
            let b = path::normalize(to);
            read_through(overlay::renamed(staged, a, b), image, path::normalize(q)) == (
            if path::normalize(q) == a {
                None
            } else if path::normalize(q) == b {
                read_through(staged, image, a)
            } else {
                read_through(staged, image, path::normalize(q))
            })
        }),
{
}

/// A file that only the image has is renamed by staging its bytes first: then
/// the rename is not refused, the destination reads as the image's file, and
/// the source reads as missing.
pub proof fn staged_image_file_can_be_renamed(
    staged: overlay::Staged,
    image: Image,
    from: Seq<char>,
    to: Seq<char>,
    mode: u16,
    mtime: u64,
)
    requires
        overlay::answer(staged, path::normalize(from)) is Miss,
        image.contains_key(path::normalize(from)),
        path::normalize(from) != path::normalize(to),
    ensures
        ({
            let a = path::normalize(from);
            let b = path::normalize(to);
            let ready = overlay::written(staged, a, image[a], mode, mtime);
            &&& overlay::rename_refusal(ready, a, b) is None
            &&& read_through(overlay::renamed(ready, a, b), image, b) == read_through(
                staged,
                image,
                a,
            )
            &&& read_through(overlay::renamed(ready, a, b), image, a) is None
        }),
{
}

/// What is staged at a path decides the read there by itself: two images give
/// the same answer.
pub proof fn staged_path_hides_the_image(
    staged: overlay::Staged,
    one: Image,
    other: Image,
    p: Seq<char>,
)
    requires
        !(overlay::answer(staged, path::normalize(p)) is Miss),
    ensures
        read_through(staged, one, path::normalize(p)) == read_through(
            staged,
            other,
            path::normalize(p),
        ),
{
}

} // verus!
