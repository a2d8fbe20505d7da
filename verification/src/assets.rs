//! How sprite files become clips.

use vstd::prelude::*;

use crate::animation;
use crate::text;
use crate::text_laws;

verus! {

broadcast use vstd::string::group_string_axioms;

/// Tells whether a file with this extension is an image that is loaded.
pub fn is_image(extension: Option<&str>) -> (res: bool)
    ensures
        res == (extension matches Some(e) && e@ == "png"@),
{
    match extension {
        Some(e) => text::same(e, "png"),
        None => false,
    }
}

/// A picture: four bytes for each pixel, row by row, red, green, blue and how opaque it is.
#[derive(Debug)]
pub struct Picture {
    pub width: u32,
    pub height: u32,
    pub pixels: Vec<u8>,
}

/// What a [`Picture`] holds.
pub struct PictureView {
    pub width: nat,
    pub height: nat,
    pub pixels: Seq<u8>,
}

impl View for Picture {
    type V = PictureView;

    open spec fn view(&self) -> PictureView {
        PictureView {
            width: self.width as nat,
            height: self.height as nat,
            pixels: self.pixels@,
        }
    }
}

/// Tells whether a picture has as many bytes as its pixels take.
pub open spec fn is_filled(picture: PictureView) -> bool {
    picture.pixels.len() == 4 * picture.width * picture.height
}

/// Why a file could not be read as a picture, in words.
#[derive(Debug)]
pub struct PictureError {
    pub message: String,
}

/// What the bytes of an image file hold: the picture that `image::load_from_memory` decodes and
/// `to_rgba8` converts, or the words of the error with which it fails.
pub uninterp spec fn picture_in(bytes: Seq<u8>) -> Result<PictureView, Seq<char>>;

/// Decodes an image file by `image::load_from_memory` and `DynamicImage::to_rgba8`; an error is
/// turned into its words by the `Display` of `image::ImageError`. The result is a function of the
/// bytes, and a picture has four bytes for each pixel.
#[verifier::external_body]
fn decode(bytes: &[u8]) -> (res: Result<Picture, String>)
    ensures
        match res {
            Ok(picture) => picture_in(bytes@) == Ok::<PictureView, Seq<char>>(picture@)
                && is_filled(picture@),
            Err(words) => picture_in(bytes@) == Err::<PictureView, Seq<char>>(words@),
        },
{
    let image = image::load_from_memory(bytes).map_err(|err| err.to_string())?.to_rgba8();
    Ok(Picture { width: image.width(), height: image.height(), pixels: image.into_vec() })
}

/// Reads the bytes of an image file. There is a picture exactly where the bytes hold one, and it
/// has four bytes for each pixel; where they hold none, the error says why.
pub fn read_picture(bytes: &[u8]) -> (res: Result<Picture, PictureError>)
    ensures
        match res {
            Ok(picture) => picture_in(bytes@) == Ok::<PictureView, Seq<char>>(picture@)
                && is_filled(picture@),
            Err(err) => picture_in(bytes@) == Err::<PictureView, Seq<char>>(err.message@),
        },
{
    match decode(bytes) {
        Ok(picture) => Ok(picture),
        Err(message) => Err(PictureError { message }),
    }
}

/// A path with dots in place of its separators.
pub open spec fn dotted_of(path: Seq<char>) -> Seq<char> {
    path.map_values(
        |c: char|
            if c == '\\' || c == '/' {
                '.'
            } else {
                c
            },
    )
}

/// A path with dots in place of its separators.
pub fn dotted(path: &str) -> (res: String)
    ensures
        res@ == dotted_of(path@),
{
    let chars = text::chars_of(path);
    let mut res = String::new();
    let mut i: usize = 0;
    while i < chars.len()
        invariant
            i <= chars@.len(),
            chars@ == path@,
            res@ == dotted_of(path@.take(i as int)),
        decreases chars@.len() - i,
    {
        let c = chars[i];
        res.push(
            if c == '\\' || c == '/' {
                '.'
            } else {
                c
            },
        );
        i += 1;
        assert(res@ =~= dotted_of(path@.take(i as int)));
    }
    assert(path@.take(i as int) =~= path@);
    res
}

/// The category that an identifier names: what stands before its first dot.
pub open spec fn category_of(id: Seq<char>) -> Seq<char> {
    match text::find_text(id, "."@) {
        Some(i) => id.take(i),
        None => id,
    }
}

/// The name that an identifier gives: what stands behind its first dot, all of it without one.
pub open spec fn name_of(id: Seq<char>) -> Seq<char> {
    match text::find_text(id, "."@) {
        Some(i) => id.skip(i + 1),
        None => id,
    }
}

/// Takes an identifier apart at its first dot, as in `idle_normal.normal_a`. One without a dot is
/// category and name at once.
pub fn split_id(id: &str) -> (res: (String, String))
    ensures
        res.0@ == category_of(id@),
        res.1@ == name_of(id@),
{
    let chars = text::chars_of(id);
    let n: usize = chars.len();
    let mut i: usize = 0;
    proof {
        reveal_strlit(".");
        assert(chars@.skip(0) =~= chars@);
        assert("."@ =~= seq!['.']);
    }
    while i < n
        invariant
            i <= n,
            n == chars@.len(),
            chars@ == id@,
            "."@ == seq!['.'],
            text::find_text(id@, "."@) == match text::find_text(chars@.skip(i as int), "."@) {
                Some(k) => Some(k + i),
                None => None,
            },
        decreases n - i,
    {
        let ghost rest = chars@.skip(i as int);
        assert(rest.first() == chars@[i as int]);
        if chars[i] == '.' {
            assert("."@ =~= rest.take(1));
            let category = text::string_of(&chars, 0, i);
            let name = text::string_of(&chars, i + 1, n);
            assert(category@ =~= id@.take(i as int));
            assert(name@ =~= id@.skip(i + 1));
            return (category, name);
        }
        assert("."@[0] != rest.take(1)[0]);
        assert(rest.drop_first() =~= chars@.skip(i + 1));
        i += 1;
    }
    assert(chars@.skip(n as int) =~= Seq::<char>::empty());
    assert(text::find_text(Seq::<char>::empty(), "."@) is None);
    (id.to_string(), id.to_string())
}

/// A clip that was taken apart has the identifier that it was taken from. The exception is an
/// identifier of the form `x.x`, which a clip shortens to `x`.
pub proof fn law_split_id_is_undone(id: Seq<char>)
    requires
        text::find_text(id, "."@) is Some ==> category_of(id) != name_of(id),
    ensures
        animation::clip_id(category_of(id), name_of(id)) == id,
{
    text::lemma_find_text_fits(id, "."@);
    reveal_strlit(".");
    assert("."@ =~= seq!['.']);
    if let Some(i) = text::find_text(id, "."@) {
        lemma_found_text_is_there(id, "."@);
        assert(id.take(i) + "."@ + id.skip(i + 1) =~= id);
    }
}

/// An identifier is cut at its first dot and nowhere else: there is no dot in the category, and
/// one without a dot is category and name at once.
pub proof fn law_id_is_cut_at_its_first_dot(id: Seq<char>)
    ensures
        id.contains('.') ==> {
            &&& id == category_of(id).push('.') + name_of(id)
            &&& !category_of(id).contains('.')
        },
        !id.contains('.') ==> category_of(id) == id && name_of(id) == id,
{
    reveal_strlit(".");
    assert("."@ =~= seq!['.']);
    text_laws::law_first_occurrence_is_found(id, "."@);
    match text::find_text(id, "."@) {
        Some(i) => {
            assert(id.subrange(i, i + 1)[0] == '.');
            assert(id[i] == '.');
            assert(id =~= id.take(i).push('.') + id.skip(i + 1));
            assert forall|j: int| 0 <= j < i implies #[trigger] id.take(i)[j] != '.' by {
                if id[j] == '.' {
                    assert(id.subrange(j, j + 1) =~= "."@);
                }
            }
        },
        None => {
            assert forall|j: int| 0 <= j < id.len() implies #[trigger] id[j] != '.' by {
                if id[j] == '.' {
                    assert(id.subrange(j, j + 1) =~= "."@);
                }
            }
        },
    }
}

/// An identifier is the path of its folder, character by character, with a dot for each separator.
pub proof fn law_dots_stand_for_separators(path: Seq<char>)
    ensures
        dotted_of(path).len() == path.len(),
        forall|i: int|
            0 <= i < path.len() ==> #[trigger] dotted_of(path)[i] == (if path[i] == '/' || path[i]
                == '\\' {
                '.'
            } else {
                path[i]
            }),
{
}

proof fn lemma_found_text_is_there(s: Seq<char>, sep: Seq<char>)
    ensures
        text::find_text(s, sep) matches Some(i) ==> sep.is_prefix_of(s.skip(i)),
    decreases s.len(),
{
    if sep.is_prefix_of(s) {
        assert(s.skip(0) =~= s);
    } else if s.len() > 0 {
        lemma_found_text_is_there(s.drop_first(), sep);
        if let Some(i) = text::find_text(s.drop_first(), sep) {
            text::lemma_find_text_fits(s.drop_first(), sep);
            assert(s.drop_first().skip(i) =~= s.skip(i + 1));
        }
    }
}

/// The name under which the texture of a frame is known.
pub fn frame_label(id: &str, index: usize) -> (res: String)
    ensures
        res@ == id@ + "_"@ + text::decimal(index as nat),
{
    id.to_string().concat("_").concat(text::decimal_of(index as u64).as_str())
}

/// A sprite file: the folder it lies in, below the root, and its file name.
pub struct FrameFile {
    pub folder: String,
    pub file: String,
}

/// A clip to be loaded from one folder. `frames` are positions in the list of sprite files.
pub struct ClipPlan {
    pub folder: String,
    pub id: String,
    pub category: String,
    pub name: String,
    pub frames: Vec<usize>,
}

/// Tells whether `a` comes before `b` in the order of characters.
pub open spec fn text_less(a: Seq<char>, b: Seq<char>) -> bool
    decreases a.len(),
{
    if b.len() == 0 {
        false
    } else if a.len() == 0 {
        true
    } else if a.first() != b.first() {
        a.first() < b.first()
    } else {
        text_less(a.drop_first(), b.drop_first())
    }
}

proof fn lemma_text_less_transitive(a: Seq<char>, b: Seq<char>, c: Seq<char>)
    requires
        text_less(a, b),
        text_less(b, c),
    ensures
        text_less(a, c),
    decreases a.len(),
{
    if a.len() > 0 && a.first() == b.first() && b.first() == c.first() {
        lemma_text_less_transitive(a.drop_first(), b.drop_first(), c.drop_first());
    }
}

proof fn lemma_text_less_total(a: Seq<char>, b: Seq<char>)
    ensures
        a != b ==> text_less(a, b) != text_less(b, a),
        a == b ==> !text_less(a, b),
    decreases a.len(),
{
    if a.len() > 0 && b.len() > 0 && a.first() == b.first() {
        lemma_text_less_total(a.drop_first(), b.drop_first());
        if a.drop_first() == b.drop_first() {
            assert(seq![a.first()] + a.drop_first() =~= a);
            assert(seq![b.first()] + b.drop_first() =~= b);
        }
    } else if a.len() == 0 && b.len() == 0 {
        assert(a =~= b);
    }
}

/// Tells whether `a` comes before `b` in the order of characters.
fn comes_before(a: &str, b: &str) -> (res: bool)
    ensures
        res == text_less(a@, b@),
{
    let x = text::chars_of(a);
    let y = text::chars_of(b);
    let mut i: usize = 0;
    assert(x@.skip(0) =~= x@ && y@.skip(0) =~= y@);
    while i < x.len() && i < y.len() && x[i] == y[i]
        invariant
            i <= x@.len(),
            i <= y@.len(),
            text_less(x@, y@) == text_less(x@.skip(i as int), y@.skip(i as int)),
        decreases x@.len() - i,
    {
        assert(x@.skip(i as int).drop_first() =~= x@.skip(i + 1));
        assert(y@.skip(i as int).drop_first() =~= y@.skip(i + 1));
        i += 1;
    }
    if i == y.len() {
        false
    } else if i == x.len() {
        true
    } else {
        x[i] < y[i]
    }
}

/// One text comes before another where it is a shorter start of it, or where it has the lesser
/// character at the first place at which they differ.
pub proof fn law_texts_are_ordered_by_their_first_difference(a: Seq<char>, b: Seq<char>)
    ensures
        text_less(a, b) <==> exists|k: int|
            {
                &&& 0 <= k <= a.len()
                &&& k < b.len()
                &&& #[trigger] a.take(k) == b.take(k)
                &&& k == a.len() || a[k] < b[k]
            },
    decreases a.len(),
{
    if b.len() == 0 {
    } else if a.len() == 0 {
        assert(a.take(0) =~= b.take(0));
    } else if a[0] == b[0] {
        let x = a.drop_first();
        let y = b.drop_first();
        law_texts_are_ordered_by_their_first_difference(x, y);
        if text_less(x, y) {
            let k = choose|k: int|
                {
                    &&& 0 <= k <= x.len()
                    &&& k < y.len()
                    &&& #[trigger] x.take(k) == y.take(k)
                    &&& k == x.len() || x[k] < y[k]
                };
            assert forall|i: int| 0 <= i < k + 1 implies a[i] == b[i] by {
                if i > 0 {
                    assert(x.take(k)[i - 1] == y.take(k)[i - 1]);
                }
            }
            assert(a.take(k + 1) =~= b.take(k + 1));
        }
        if exists|k: int|
            {
                &&& 0 <= k <= a.len()
                &&& k < b.len()
                &&& #[trigger] a.take(k) == b.take(k)
                &&& k == a.len() || a[k] < b[k]
            } {
            let k = choose|k: int|
                {
                    &&& 0 <= k <= a.len()
                    &&& k < b.len()
                    &&& #[trigger] a.take(k) == b.take(k)
                    &&& k == a.len() || a[k] < b[k]
                };
            assert(k > 0);
            assert forall|i: int| 0 <= i < k - 1 implies x[i] == y[i] by {
                assert(a.take(k)[i + 1] == b.take(k)[i + 1]);
            }
            assert(x.take(k - 1) =~= y.take(k - 1));
        }
    } else {
        assert(a.take(0) =~= b.take(0));
        assert forall|k: int|
            {
                &&& 0 < k <= a.len()
                &&& k < b.len()
            } implies #[trigger] a.take(k) != b.take(k) by {
            assert(a.take(k)[0] != b.take(k)[0]);
        }
    }
}

/// Tells whether file `i` is shown before file `j`: by file name, files of one name as listed.
pub open spec fn shown_before(files: Seq<FrameFile>, i: int, j: int) -> bool {
    ||| text_less(files[i].file@, files[j].file@)
    ||| files[i].file@ == files[j].file@ && i < j
}

/// Tells whether `frames` are those of the first `n` files that lie in `folder`, each once, in the
/// order of their names.
pub open spec fn frames_among(
    files: Seq<FrameFile>,
    n: int,
    folder: Seq<char>,
    frames: Seq<usize>,
) -> bool {
    &&& forall|k: int|
        0 <= k < frames.len() ==> #[trigger] frames[k] < n && files[frames[k] as int].folder@
            == folder
    &&& forall|i: int|
        0 <= i < n && (#[trigger] files[i]).folder@ == folder ==> frames.contains(i as usize)
    &&& forall|k: int, l: int|
        0 <= k < l < frames.len() ==> shown_before(
            files,
            #[trigger] frames[k] as int,
            #[trigger] frames[l] as int,
        )
}

/// Tells whether `frames` are the files of `folder`, each once, in the order of their names.
pub open spec fn frames_of(files: Seq<FrameFile>, folder: Seq<char>, frames: Seq<usize>) -> bool {
    frames_among(files, files.len() as int, folder, frames)
}

proof fn lemma_frame_inserted(
    files: Seq<FrameFile>,
    i: usize,
    folder: Seq<char>,
    frames: Seq<usize>,
    at: int,
)
    requires
        i < files.len(),
        files[i as int].folder@ == folder,
        frames_among(files, i as int, folder, frames),
        0 <= at <= frames.len(),
        forall|k: int|
            0 <= k < at ==> !text_less(
                files[i as int].file@,
                files[#[trigger] frames[k] as int].file@,
            ),
        at < frames.len() ==> text_less(files[i as int].file@, files[frames[at] as int].file@),
    ensures
        frames_among(files, i + 1, folder, frames.insert(at, i)),
{
    let longer = frames.insert(at, i);
    assert forall|k: int| 0 <= k < longer.len() implies #[trigger] longer[k] < i + 1
        && files[longer[k] as int].folder@ == folder by {
        if k > at {
            assert(longer[k] == frames[k - 1]);
        }
    }
    assert forall|j: int|
        0 <= j < i + 1 && (#[trigger] files[j]).folder@ == folder implies longer.contains(
        j as usize,
    ) by {
        if j == i {
            assert(longer[at] == j as usize);
        } else {
            let k = choose|k: int| 0 <= k < frames.len() && frames[k] == j as usize;
            if k < at {
                assert(longer[k] == j as usize);
            } else {
                assert(longer[k + 1] == j as usize);
            }
        }
    }
    assert forall|k: int, l: int| 0 <= k < l < longer.len() implies shown_before(
        files,
        #[trigger] longer[k] as int,
        #[trigger] longer[l] as int,
    ) by {
        let new = files[i as int].file@;
        if k < at && l == at {
            assert(longer[k] == frames[k]);
            lemma_text_less_total(files[frames[k] as int].file@, new);
        } else if k == at {
            assert(longer[l] == frames[l - 1]);
            if l - 1 > at {
                let next = files[frames[at] as int].file@;
                assert(shown_before(files, frames[at] as int, frames[l - 1] as int));
                if text_less(next, files[frames[l - 1] as int].file@) {
                    lemma_text_less_transitive(new, next, files[frames[l - 1] as int].file@);
                }
            }
        } else {
            let x = if k < at {
                k
            } else {
                k - 1
            };
            let y = if l < at {
                l
            } else {
                l - 1
            };
            assert(longer[k] == frames[x]);
            assert(longer[l] == frames[y]);
            assert(shown_before(files, frames[x] as int, frames[y] as int));
        }
    }
}

/// The files of `folder`, in the order of their names.
pub fn pick_frames(files: &Vec<FrameFile>, folder: &str) -> (frames: Vec<usize>)
    ensures
        frames_of(files@, folder@, frames@),
{
    let mut frames: Vec<usize> = Vec::new();
    let mut i: usize = 0;
    while i < files.len()
        invariant
            i <= files@.len(),
            frames_among(files@, i as int, folder@, frames@),
        decreases files@.len() - i,
    {
        if text::same(files[i].folder.as_str(), folder) {
            let mut at: usize = 0;
            while at < frames.len() && !comes_before(
                files[i].file.as_str(),
                files[frames[at]].file.as_str(),
            )
                invariant
                    i < files@.len(),
                    at <= frames@.len(),
                    frames_among(files@, i as int, folder@, frames@),
                    forall|k: int|
                        0 <= k < at ==> !text_less(
                            files@[i as int].file@,
                            files@[#[trigger] frames@[k] as int].file@,
                        ),
                decreases frames@.len() - at,
            {
                at += 1;
            }
            proof {
                lemma_frame_inserted(files@, i, folder@, frames@, at as int);
            }
            frames.insert(at, i);
        }
        i += 1;
    }
    frames
}

/// The folders of `files`, each once, in the order in which they first occur.
pub open spec fn folders_of(files: Seq<FrameFile>) -> Seq<Seq<char>>
    decreases files.len(),
{
    if files.len() == 0 {
        Seq::empty()
    } else {
        let before = folders_of(files.drop_last());
        if before.contains(files.last().folder@) {
            before
        } else {
            before.push(files.last().folder@)
        }
    }
}

fn list_folders(files: &Vec<FrameFile>) -> (folders: Vec<String>)
    ensures
        text::texts(folders@) == folders_of(files@),
{
    let mut folders: Vec<String> = Vec::new();
    let mut i: usize = 0;
    assert(text::texts(folders@) =~= folders_of(files@.take(0)));
    while i < files.len()
        invariant
            i <= files@.len(),
            text::texts(folders@) == folders_of(files@.take(i as int)),
        decreases files@.len() - i,
    {
        let ghost known = text::texts(folders@);
        let ghost folder = files@[i as int].folder@;
        let found: bool = text::has(&folders, files[i].folder.as_str());
        proof {
            assert(files@.take(i + 1).drop_last() =~= files@.take(i as int));
            assert(files@.take(i + 1).last() == files@[i as int]);
        }
        if !found {
            folders.push(files[i].folder.clone());
            assert(text::texts(folders@) =~= known.push(folder));
        }
        i += 1;
    }
    assert(files@.take(i as int) =~= files@);
    folders
}

/// Tells whether a plan is that of the clip in `folder`.
pub open spec fn plans_folder(files: Seq<FrameFile>, folder: Seq<char>, plan: ClipPlan) -> bool {
    &&& plan.folder@ == folder
    &&& plan.id@ == dotted_of(folder)
    &&& plan.category@ == category_of(dotted_of(folder))
    &&& plan.name@ == name_of(dotted_of(folder))
    &&& frames_of(files, folder, plan.frames@)
}

/// Plans one clip per folder that has sprite files. A clip is identified by the path of its
/// folder below the root, with dots for separators, and shows its files in the order of their
/// names.
pub fn plan_clips(files: &Vec<FrameFile>) -> (plans: Vec<ClipPlan>)
    ensures
        plans@.len() == folders_of(files@).len(),
        forall|k: int|
            0 <= k < plans@.len() ==> plans_folder(
                files@,
                folders_of(files@)[k],
                #[trigger] plans@[k],
            ),
{
    let folders = list_folders(files);
    let mut plans: Vec<ClipPlan> = Vec::new();
    let mut i: usize = 0;
    while i < folders.len()
        invariant
            i <= folders@.len(),
            text::texts(folders@) == folders_of(files@),
            plans@.len() == i,
            forall|k: int|
                0 <= k < plans@.len() ==> plans_folder(
                    files@,
                    folders_of(files@)[k],
                    #[trigger] plans@[k],
                ),
        decreases folders@.len() - i,
    {
        let folder = folders[i].clone();
        assert(text::texts(folders@)[i as int] == folder@);
        let id = dotted(folder.as_str());
        let (category, name) = split_id(id.as_str());
        let frames = pick_frames(files, folder.as_str());
        plans.push(ClipPlan { folder, id, category, name, frames });
        i += 1;
    }
    plans
}

/// The frames of a clip are the files of its folder, all of them, none of them twice, and none of
/// another folder.
pub proof fn law_frames_are_the_files_of_the_folder(
    files: Seq<FrameFile>,
    folder: Seq<char>,
    frames: Seq<usize>,
    i: usize,
)
    requires
        frames_of(files, folder, frames),
        i < files.len(),
    ensures
        frames.contains(i) <==> files[i as int].folder@ == folder,
        frames.no_duplicates(),
{
    assert forall|k: int, l: int| 0 <= k < l < frames.len() implies #[trigger] frames[k]
        != #[trigger] frames[l] by {
        assert(shown_before(files, frames[k] as int, frames[l] as int));
        lemma_text_less_irreflexive(files[frames[k] as int].file@);
    }
    if files[i as int].folder@ == folder {
        assert(frames.contains(i as int as usize));
    }
}

/// The frames of a clip come in the order of their file names.
pub proof fn law_frames_are_in_order(
    files: Seq<FrameFile>,
    folder: Seq<char>,
    frames: Seq<usize>,
    k: int,
    l: int,
)
    requires
        frames_of(files, folder, frames),
        0 <= k < l < frames.len(),
    ensures
        text_less(files[frames[k] as int].file@, files[frames[l] as int].file@)
            || files[frames[k] as int].file@ == files[frames[l] as int].file@,
{
    assert(shown_before(files, frames[k] as int, frames[l] as int));
}

/// A clip is identified by the path of its folder, with dots for its separators, and the identifier
/// is what category and name come to; its frames are those of its folder.
pub proof fn law_plan_is_that_of_its_folder(
    files: Seq<FrameFile>,
    folder: Seq<char>,
    plan: ClipPlan,
)
    requires
        plans_folder(files, folder, plan),
    ensures
        plan.folder@ == folder,
        plan.id@.len() == folder.len(),
        forall|i: int|
            0 <= i < folder.len() ==> #[trigger] plan.id@[i] == (if folder[i] == '/' || folder[i]
                == '\\' {
                '.'
            } else {
                folder[i]
            }),
        plan.id@.contains('.') ==> plan.id@ == plan.category@.push('.') + plan.name@,
        !plan.id@.contains('.') ==> plan.category@ == plan.id@ && plan.name@ == plan.id@,
        !plan.category@.contains('.'),
        forall|i: usize|
            i < files.len() ==> (#[trigger] plan.frames@.contains(i) <==> files[i as int].folder@
                == folder),
{
    law_id_is_cut_at_its_first_dot(plan.id@);
    assert forall|i: usize| i < files.len() implies (#[trigger] plan.frames@.contains(i)
        <==> files[i as int].folder@ == folder) by {
        law_frames_are_the_files_of_the_folder(files, folder, plan.frames@, i);
    }
}

proof fn lemma_text_less_irreflexive(a: Seq<char>)
    ensures
        !text_less(a, a),
    decreases a.len(),
{
    if a.len() > 0 {
        lemma_text_less_irreflexive(a.drop_first());
    }
}

proof fn lemma_folders(files: Seq<FrameFile>)
    ensures
        folders_of(files).no_duplicates(),
        forall|i: int|
            0 <= i < files.len() ==> folders_of(files).contains((#[trigger] files[i]).folder@),
        forall|k: int|
            0 <= k < folders_of(files).len() ==> exists|i: int|
                0 <= i < files.len() && (#[trigger] files[i]).folder@ == #[trigger] folders_of(
                    files,
                )[k],
    decreases files.len(),
{
    if files.len() > 0 {
        let shorter = files.drop_last();
        let before = folders_of(shorter);
        let all = folders_of(files);
        lemma_folders(shorter);
        assert forall|i: int| 0 <= i < files.len() implies all.contains(
            (#[trigger] files[i]).folder@,
        ) by {
            if i < shorter.len() {
                assert(before.contains(shorter[i].folder@));
                let k = choose|k: int| 0 <= k < before.len() && before[k] == shorter[i].folder@;
                assert(all[k] == files[i].folder@);
            } else if !before.contains(files.last().folder@) {
                assert(all[before.len() as int] == files[i].folder@);
            }
        }
        assert forall|k: int| 0 <= k < all.len() implies exists|i: int|
            0 <= i < files.len() && (#[trigger] files[i]).folder@ == #[trigger] all[k] by {
            if k < before.len() {
                let i = choose|i: int|
                    0 <= i < shorter.len() && (#[trigger] shorter[i]).folder@ == before[k];
                assert(files[i].folder@ == all[k]);
            } else {
                assert(files[files.len() - 1].folder@ == all[k]);
            }
        }
    }
}

/// Each folder that has a file gets one clip, and no clip goes without a frame.
pub proof fn law_each_folder_gets_one_clip(files: Seq<FrameFile>, k: int, frames: Seq<usize>)
    requires
        0 <= k < folders_of(files).len(),
        frames_of(files, folders_of(files)[k], frames),
        files.len() <= usize::MAX,
    ensures
        folders_of(files).no_duplicates(),
        forall|i: int|
            0 <= i < files.len() ==> folders_of(files).contains((#[trigger] files[i]).folder@),
        forall|l: int|
            0 <= l < folders_of(files).len() ==> exists|i: int|
                0 <= i < files.len() && (#[trigger] files[i]).folder@ == #[trigger] folders_of(
                    files,
                )[l],
        frames.len() > 0,
{
    lemma_folders(files);
    let i = choose|i: int|
        0 <= i < files.len() && (#[trigger] files[i]).folder@ == folders_of(files)[k];
    assert(frames.contains(i as usize));
}

} // verus!
