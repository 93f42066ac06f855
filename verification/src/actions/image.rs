//! Images: which are in use, their listing and details, pulling by
//! reference, and the paths of the requests on them.
use vstd::prelude::*;
use crate::json::{Json, get_in, str_in, array_in, object_in};
use crate::render::{views, or_else, row, row_exec, text_or, u64_or_zero, labelled, labelled_number, push_line, block, push_block, texts, texts_exec};
use crate::text::{copy_str, str_eq, repeat, rule, dec, pad, prefix, strip_prefix_repeatedly, take_chars, trim_start_str, join, join_strings, append_padded};
use crate::units::{fmt_size, size_text};
use crate::encoding::{url_encode, url_encoded};
use crate::actions::endpoint::{items_or_empty, text_or_unknown, num_or_zero};
use crate::actions::container::{docker_path, docker_path_exec};

verus! {

/// The IDs of the images that containers use, from the answer to
/// `GET .../containers/json?all=1` (an answer that is no list gives none).
pub open spec fn in_use_ids(data: Json) -> Seq<Seq<char>> {
    image_ids(items_or_empty(data))
}

/// The text `ImageID`s of a list of containers.
pub open spec fn image_ids(cs: Seq<Json>) -> Seq<Seq<char>>
    decreases cs.len(),
{
    if cs.len() == 0 {
        Seq::empty()
    } else {
        let prev = image_ids(cs.drop_last());
        match cs.last().at("ImageID"@).str_of() {
            Some(id) => prev.push(id),
            None => prev,
        }
    }
}

/// Collects the IDs of the images that containers use.
pub fn in_use_ids_exec(data: &Json) -> (r: Vec<String>)
    ensures
        views(r@) == in_use_ids(*data),
{
    let empty: Vec<Json> = Vec::new();
    let cs = match data {
        Json::Array(items) => items,
        _ => &empty,
    };
    let mut out: Vec<String> = Vec::new();
    let mut i: usize = 0;
    while i < cs.len()
        invariant
            i <= cs@.len(),
            cs@ == items_or_empty(*data),
            views(out@) == image_ids(cs@.take(i as int)),
        decreases cs.len() - i,
    {
        proof {
            assert(cs@.take(i + 1).drop_last() =~= cs@.take(i as int));
            assert(cs@.take(i + 1).last() == cs@[i as int]);
        }
        match str_in(cs[i].get("ImageID")) {
            Some(id) => push_line(&mut out, copy_str(id.as_str())),
            None => {},
        }
        i = i + 1;
    }
    proof {
        assert(cs@.take(cs@.len() as int) =~= cs@);
    }
    out
}

/// Whether a list of texts holds `t`.
pub fn contains_text(items: &Vec<String>, t: &str) -> (r: bool)
    ensures
        r == views(items@).contains(t@),
{
    let mut i: usize = 0;
    while i < items.len()
        invariant
            i <= items@.len(),
            forall|k: int| 0 <= k < i ==> views(items@)[k] != t@,
        decreases items.len() - i,
    {
        if str_eq(items[i].as_str(), t) {
            assert(views(items@)[i as int] == t@);
            return true;
        }
        i = i + 1;
    }
    false
}

/// The ID of an image as listed: without its `sha256:` prefix, 12
/// characters long.
pub open spec fn short_image_id(img: Json) -> Seq<char> {
    prefix(strip_prefix_repeatedly(or_else(img.at("Id"@).str_of(), ""@), "sha256:"@), 12)
}

fn short_image_id_exec(img: &Json) -> (r: String)
    ensures
        r@ == short_image_id(*img),
{
    proof {
        reveal_strlit("sha256:");
    }
    let full = text_or(img.get("Id"), "");
    let stripped = trim_start_str(full.as_str(), "sha256:");
    take_chars(stripped.as_str(), 12)
}

/// `yes` when an image is in use, `no` otherwise.
pub open spec fn used_text(img: Json, in_use: Seq<Seq<char>>) -> Seq<char> {
    if in_use.contains(or_else(img.at("Id"@).str_of(), ""@)) {
        "yes"@
    } else {
        "no"@
    }
}

fn used_text_exec(img: &Json, in_use: &Vec<String>) -> (r: &'static str)
    ensures
        r@ == used_text(*img, views(in_use@)),
{
    let full = text_or(img.get("Id"), "");
    if contains_text(in_use, full.as_str()) {
        "yes"
    } else {
        "no"
    }
}

/// The tags an image is listed under: its text `RepoTags`, or
/// `<none>:<none>` when it has no tag list or an empty one.
pub open spec fn listed_tags(img: Json) -> Seq<Seq<char>> {
    match img.at("RepoTags"@).array_of() {
        Some(tags) => if tags.len() > 0 {
            texts(tags)
        } else {
            seq!["<none>:<none>"@]
        },
        None => seq!["<none>:<none>"@],
    }
}

/// The lines of one image in `image ls`: a full row for its first tag, a
/// row with only the tag for each further one.
pub open spec fn image_lines(img: Json, in_use: Seq<Seq<char>>) -> Seq<Seq<char>> {
    let tags = listed_tags(img);
    Seq::new(
        tags.len(),
        |i: int|
            if i == 0 {
                row(
                    seq![short_image_id(img), tags[0], size_text(num_or_zero(img.at("Size"@)) as nat), used_text(img, in_use)],
                    seq![14nat, 40nat, 10nat],
                )
            } else {
                pad(Seq::empty(), 14) + " "@ + pad(tags[i], 40)
            },
    )
}

/// The lines of a list of images.
pub open spec fn images_lines(imgs: Seq<Json>, in_use: Seq<Seq<char>>) -> Seq<Seq<char>>
    decreases imgs.len(),
{
    if imgs.len() == 0 {
        Seq::empty()
    } else {
        images_lines(imgs.drop_last(), in_use) + image_lines(imgs.last(), in_use)
    }
}

/// What `image ls` prints for the answer to `GET .../images/json` (an answer
/// that is no list counts as empty) and the IDs of the images in use.
pub open spec fn image_list(data: Json, in_use: Seq<Seq<char>>) -> Seq<Seq<char>> {
    let imgs = items_or_empty(data);
    if imgs.len() == 0 {
        seq!["No images found."@]
    } else {
        seq![row(seq!["ID"@, "REPOSITORY:TAG"@, "SIZE"@, "IN USE"@], seq![14nat, 40nat, 10nat]), repeat('-', 72)]
            + images_lines(imgs, in_use)
    }
}

/// Whether the answer to `GET .../images/json` lists any image (only then
/// does `image ls` look up which images are in use).
pub fn has_images(data: &Json) -> (r: bool)
    ensures
        r == (items_or_empty(*data).len() > 0),
{
    match data {
        Json::Array(items) => items.len() > 0,
        _ => false,
    }
}

fn listed_tags_exec(img: &Json) -> (r: Vec<String>)
    ensures
        views(r@) == listed_tags(*img),
{
    match array_in(img.get("RepoTags")) {
        Some(tags) => if tags.len() > 0 {
            return texts_exec(tags);
        },
        None => {},
    }
    let mut v: Vec<String> = Vec::new();
    push_line(&mut v, copy_str("<none>:<none>"));
    proof {
        assert(views(v@) =~= seq!["<none>:<none>"@]);
    }
    v
}

fn image_lines_exec(img: &Json, in_use: &Vec<String>, lines: &mut Vec<String>)
    ensures
        views(final(lines)@) == views(old(lines)@) + image_lines(*img, views(in_use@)),
{
    let ghost start = views(lines@);
    let ghost expect = image_lines(*img, views(in_use@));
    let tags = listed_tags_exec(img);
    assert(expect.len() == tags@.len());
    let mut i: usize = 0;
    while i < tags.len()
        invariant
            i <= tags@.len(),
            views(tags@) == listed_tags(*img),
            expect == image_lines(*img, views(in_use@)),
            views(lines@) == start + expect.take(i as int),
        decreases tags.len() - i,
    {
        if i == 0 {
            let mut cells: Vec<String> = Vec::new();
            push_line(&mut cells, short_image_id_exec(img));
            push_line(&mut cells, copy_str(tags[0].as_str()));
            push_line(&mut cells, fmt_size(u64_or_zero(img.get("Size"))));
            push_line(&mut cells, copy_str(used_text_exec(img, in_use)));
            let mut widths: Vec<usize> = Vec::new();
            widths.push(14);
            widths.push(40);
            widths.push(10);
            proof {
                assert(views(cells@) =~= seq![short_image_id(*img), views(tags@)[0], size_text(num_or_zero(img.at("Size"@)) as nat), used_text(*img, views(in_use@))]);
                assert(widths@.map_values(|w: usize| w as nat) =~= seq![14nat, 40nat, 10nat]);
            }
            push_line(lines, row_exec(&cells, &widths));
        } else {
            let mut t = String::new();
            append_padded(&mut t, "", 14);
            t.append(" ");
            append_padded(&mut t, tags[i].as_str(), 40);
            proof {
                reveal_strlit("");
                assert(""@ =~= Seq::<char>::empty());
                assert(t@ =~= expect[i as int]);
            }
            push_line(lines, t);
        }
        proof {
            assert(expect.take(i + 1) =~= expect.take(i as int).push(expect[i as int]));
        }
        i = i + 1;
    }
    proof {
        assert(expect.take(tags@.len() as int) =~= expect);
    }
}

/// An image is marked in use (`yes`) exactly when its full `Id` (empty when
/// it has none) is one of the IDs in use, at whatever position; otherwise it
/// is marked `no`.
pub proof fn lemma_used_text_membership(img: Json, in_use: Seq<Seq<char>>)
    ensures
        (used_text(img, in_use) == "yes"@) <==> (exists|j: int| 0 <= j < in_use.len()
            && #[trigger] in_use[j] == or_else(img.at("Id"@).str_of(), ""@)),
        (used_text(img, in_use) == "no"@) <==> !(exists|j: int| 0 <= j < in_use.len()
            && #[trigger] in_use[j] == or_else(img.at("Id"@).str_of(), ""@)),
{
    reveal_strlit("yes");
    reveal_strlit("no");
    assert("yes"@ != "no"@) by {
        assert("yes"@.len() != "no"@.len());
    }
}

/// What the listing and the details of an image show depends on the IDs in
/// use only through whether the image's own `Id` is among them.
pub proof fn lemma_image_lines_membership(img: Json, a: Seq<Seq<char>>, b: Seq<Seq<char>>)
    requires
        a.contains(or_else(img.at("Id"@).str_of(), ""@)) == b.contains(or_else(img.at("Id"@).str_of(), ""@)),
    ensures
        image_lines(img, a) == image_lines(img, b),
        image_details(img, a) == image_details(img, b),
{
    assert(used_text(img, a) == used_text(img, b));
}

/// `image ls` does not depend on the order, or the repetition, of the IDs in
/// use: two lists holding the same IDs give the same listing.
pub proof fn lemma_image_list_same_ids(data: Json, a: Seq<Seq<char>>, b: Seq<Seq<char>>)
    requires
        forall|x: Seq<char>| a.contains(x) <==> b.contains(x),
    ensures
        image_list(data, a) == image_list(data, b),
{
    lemma_images_lines_same_ids(items_or_empty(data), a, b);
}

proof fn lemma_images_lines_same_ids(imgs: Seq<Json>, a: Seq<Seq<char>>, b: Seq<Seq<char>>)
    requires
        forall|x: Seq<char>| a.contains(x) <==> b.contains(x),
    ensures
        images_lines(imgs, a) == images_lines(imgs, b),
    decreases imgs.len(),
{
    if imgs.len() > 0 {
        lemma_images_lines_same_ids(imgs.drop_last(), a, b);
        lemma_image_lines_membership(imgs.last(), a, b);
    }
}

/// Formats `image ls` from the answer to `GET .../images/json` and the IDs
/// of the images in use.
pub fn image_list_lines(data: &Json, in_use: &Vec<String>) -> (r: Vec<String>)
    ensures
        views(r@) == image_list(*data, views(in_use@)),
{
    let empty: Vec<Json> = Vec::new();
    let imgs = match data {
        Json::Array(items) => items,
        _ => &empty,
    };
    let mut lines: Vec<String> = Vec::new();
    if imgs.len() == 0 {
        push_line(&mut lines, copy_str("No images found."));
        proof {
            assert(views(lines@) =~= seq!["No images found."@]);
        }
        return lines;
    }
    let mut cells: Vec<String> = Vec::new();
    push_line(&mut cells, copy_str("ID"));
    push_line(&mut cells, copy_str("REPOSITORY:TAG"));
    push_line(&mut cells, copy_str("SIZE"));
    push_line(&mut cells, copy_str("IN USE"));
    let mut widths: Vec<usize> = Vec::new();
    widths.push(14);
    widths.push(40);
    widths.push(10);
    proof {
        assert(views(cells@) =~= seq!["ID"@, "REPOSITORY:TAG"@, "SIZE"@, "IN USE"@]);
        assert(widths@.map_values(|w: usize| w as nat) =~= seq![14nat, 40nat, 10nat]);
    }
    push_line(&mut lines, row_exec(&cells, &widths));
    push_line(&mut lines, rule(72));
    let ghost head = views(lines@);
    let mut i: usize = 0;
    while i < imgs.len()
        invariant
            i <= imgs@.len(),
            imgs@ == items_or_empty(*data),
            views(lines@) == head + images_lines(imgs@.take(i as int), views(in_use@)),
        decreases imgs.len() - i,
    {
        proof {
            assert(imgs@.take(i + 1).drop_last() =~= imgs@.take(i as int));
            assert(imgs@.take(i + 1).last() == imgs@[i as int]);
        }
        image_lines_exec(&imgs[i], in_use, &mut lines);
        proof {
            assert(views(lines@) =~= head + images_lines(imgs@.take(i + 1), views(in_use@)));
        }
        i = i + 1;
    }
    proof {
        assert(imgs@.take(imgs@.len() as int) =~= imgs@);
        assert(views(lines@) =~= image_list(*data, views(in_use@)));
    }
    lines
}

/// The keys of an object's members, in order.
pub open spec fn keys_of(entries: Seq<(String, Json)>) -> Seq<Seq<char>> {
    entries.map_values(|m: (String, Json)| m.0@)
}

/// What `image inspect` prints for the answer to `GET .../images/{image}/json`
/// and the IDs of the images in use.
pub open spec fn image_details(img: Json, in_use: Seq<Seq<char>>) -> Seq<Seq<char>> {
    let tags = match img.at("RepoTags"@).array_of() {
        Some(tags) => if texts(tags).len() > 0 {
            seq!["Tags:         "@ + join(texts(tags), ", "@)]
        } else {
            Seq::empty()
        },
        None => Seq::empty(),
    };
    let middle = seq![
        "Created:      "@ + text_or_unknown(img.at("Created"@)),
        "Architecture: "@ + text_or_unknown(img.at("Os"@)) + "/"@ + text_or_unknown(img.at("Architecture"@)),
        "Size:         "@ + size_text(num_or_zero(img.at("Size"@)) as nat),
        "In use:       "@ + used_text(img, in_use),
    ];
    let layers = match img.at("RootFS"@).at("Layers"@).array_of() {
        Some(l) => seq!["Layers:       "@ + dec(l.len())],
        None => Seq::empty(),
    };
    let exposed = match img.at("Config"@).at("ExposedPorts"@).object_of() {
        Some(ports) => if ports.len() > 0 {
            seq!["Exposed:      "@ + join(keys_of(ports), ", "@)]
        } else {
            Seq::empty()
        },
        None => Seq::empty(),
    };
    let env = match img.at("Config"@).at("Env"@).array_of() {
        Some(envs) => block("Env:"@, texts(envs)),
        None => Seq::empty(),
    };
    seq!["ID:           "@ + short_image_id(img)] + tags + middle + layers + exposed + env
}

fn keys_exec(entries: &Vec<(String, Json)>) -> (r: Vec<String>)
    ensures
        views(r@) == keys_of(entries@),
{
    let mut out: Vec<String> = Vec::new();
    let mut i: usize = 0;
    while i < entries.len()
        invariant
            i <= entries@.len(),
            views(out@) == keys_of(entries@.take(i as int)),
        decreases entries.len() - i,
    {
        push_line(&mut out, copy_str(entries[i].0.as_str()));
        proof {
            assert(keys_of(entries@.take(i + 1)) =~= keys_of(entries@.take(i as int)).push(entries@[i as int].0@));
        }
        i = i + 1;
    }
    proof {
        assert(entries@.take(entries@.len() as int) =~= entries@);
    }
    out
}

/// Formats `image inspect`.
pub fn image_details_lines(img: &Json, in_use: &Vec<String>) -> (r: Vec<String>)
    ensures
        views(r@) == image_details(*img, views(in_use@)),
{
    let mut lines: Vec<String> = Vec::new();
    push_line(&mut lines, labelled("ID:           ", short_image_id_exec(img).as_str()));
    match array_in(img.get("RepoTags")) {
        Some(tags) => {
            let t = texts_exec(tags);
            if t.len() > 0 {
                push_line(&mut lines, labelled("Tags:         ", join_strings(&t, ", ").as_str()));
            }
        },
        None => {},
    }
    push_line(&mut lines, labelled("Created:      ", text_or(img.get("Created"), "(unknown)").as_str()));
    let mut arch = labelled("Architecture: ", text_or(img.get("Os"), "(unknown)").as_str());
    arch.append("/");
    arch.append(text_or(img.get("Architecture"), "(unknown)").as_str());
    push_line(&mut lines, arch);
    push_line(&mut lines, labelled("Size:         ", fmt_size(u64_or_zero(img.get("Size"))).as_str()));
    push_line(&mut lines, labelled("In use:       ", used_text_exec(img, in_use)));
    match array_in(get_in(img.get("RootFS"), "Layers")) {
        Some(l) => push_line(&mut lines, labelled_number("Layers:       ", l.len() as u64)),
        None => {},
    }
    let config = img.get("Config");
    match object_in(get_in(config, "ExposedPorts")) {
        Some(ports) => if ports.len() > 0 {
            let keys = keys_exec(ports);
            push_line(&mut lines, labelled("Exposed:      ", join_strings(&keys, ", ").as_str()));
        },
        None => {},
    }
    match array_in(get_in(config, "Env")) {
        Some(envs) => {
            let entries = texts_exec(envs);
            push_block(&mut lines, "Env:", &entries);
        },
        None => {},
    }
    proof {
        assert(views(lines@) =~= image_details(*img, views(in_use@)));
    }
    lines
}

/// Whether the `:` at `i` starts the tag of an image reference: no `:` and
/// no `/` follows it (a `:` before the last `/`, such as a registry's port,
/// belongs to the name).
pub open spec fn tag_colon(image: Seq<char>, i: int) -> bool {
    0 <= i < image.len() && image[i] == ':' && forall|j: int| i < j < image.len() ==> image[j] != ':' && image[j] != '/'
}

/// Splits an image reference (a name, `name:tag`, or an ID) into name and
/// tag at the `:` that starts its tag; a reference without a tag has the
/// tag `latest`.
pub open spec fn split_reference(image: Seq<char>) -> (Seq<char>, Seq<char>) {
    if exists|i: int| tag_colon(image, i) {
        let i = choose|i: int| tag_colon(image, i);
        (image.take(i), image.skip(i + 1))
    } else {
        (image, "latest"@)
    }
}

/// Splits an image reference into name and tag.
pub fn split_reference_exec(image: &str) -> (r: (String, String))
    ensures
        r.0@ == split_reference(image@).0,
        r.1@ == split_reference(image@).1,
{
    let len = image.unicode_len();
    let mut i: usize = len;
    while i > 0 && image.get_char(i - 1) != ':' && image.get_char(i - 1) != '/'
        invariant
            i <= len,
            len == image@.len(),
            forall|j: int| i <= j < len ==> image@[j] != ':' && image@[j] != '/',
        decreases i,
    {
        i = i - 1;
    }
    if i == 0 || image.get_char(i - 1) == '/' {
        proof {
            assert forall|w: int| !tag_colon(image@, w) by {
                if tag_colon(image@, w) {
                    if w >= i {
                        assert(image@[w] != ':');
                    } else if w < i - 1 {
                        assert(image@[i - 1] == '/');
                    }
                }
            }
        }
        return (copy_str(image), copy_str("latest"));
    }
    let k = i - 1;
    proof {
        assert(tag_colon(image@, k as int));
        let w = choose|w: int| tag_colon(image@, w);
        if w < k {
            assert(image@[k as int] != ':');
        }
        if w > k {
            assert(image@[w] != ':');
        }
        assert(w == k);
    }
    let name = image.substring_char(0, k);
    let tag = image.substring_char(i, len);
    proof {
        assert(name@ =~= image@.take(k as int));
        assert(tag@ =~= image@.skip(k + 1));
    }
    (copy_str(name), copy_str(tag))
}

/// The path of `image pull`'s request for image `name` at tag `tag` on
/// endpoint `eid`, both percent-encoded.
pub open spec fn pull_path(eid: u32, name: Seq<char>, tag: Seq<char>) -> Seq<char> {
    docker_path(eid, "images/create?fromImage="@ + url_encoded(name) + "&tag="@ + url_encoded(tag))
}

/// What `image pull` asks for: the path of its request and the line it
/// prints first, `Pulling {name}:{tag}... `.
pub fn pull_request(eid: u32, image: &str) -> (r: (String, String))
    ensures
        ({
            let (name, tag) = split_reference(image@);
            &&& r.0@ == pull_path(eid, name, tag)
            &&& r.1@ == "Pulling "@ + name + ":"@ + tag + "... "@
        }),
{
    let (name, tag) = split_reference_exec(image);
    let mut rest = copy_str("images/create?fromImage=");
    rest.append(url_encode(name.as_str()).as_str());
    rest.append("&tag=");
    rest.append(url_encode(tag.as_str()).as_str());
    let path = docker_path_exec(eid, rest.as_str());
    let mut line = labelled("Pulling ", name.as_str());
    line.append(":");
    line.append(tag.as_str());
    line.append("... ");
    (path, line)
}

/// The line that `image prune` prints for its answer.
pub fn prune_summary(data: &Json) -> (r: String)
    ensures
        r@ == "Removed "@ + dec(match data.at("ImagesDeleted"@).array_of() {
            Some(a) => a.len(),
            None => 0,
        }) + " image(s), reclaimed "@ + size_text(num_or_zero(data.at("SpaceReclaimed"@)) as nat) + "."@,
{
    let count = match array_in(data.get("ImagesDeleted")) {
        Some(a) => a.len(),
        None => 0,
    };
    let mut t = labelled_number("Removed ", count as u64);
    t.append(" image(s), reclaimed ");
    t.append(fmt_size(u64_or_zero(data.get("SpaceReclaimed"))).as_str());
    t.append(".");
    t
}

/// A reference with a tag is its name, `:` and its tag again, and the tag
/// holds no `:` and no `/`.
pub proof fn lemma_split_rejoins(image: Seq<char>)
    requires
        exists|i: int| tag_colon(image, i),
    ensures
        split_reference(image).0 + seq![':'] + split_reference(image).1 == image,
        !split_reference(image).1.contains(':'),
        !split_reference(image).1.contains('/'),
{
    let i = choose|i: int| tag_colon(image, i);
    assert(image.take(i) + seq![':'] + image.skip(i + 1) =~= image);
    assert forall|j: int| 0 <= j < image.skip(i + 1).len() implies #[trigger] image.skip(i + 1)[j] != ':'
        && image.skip(i + 1)[j] != '/' by {
        assert(image.skip(i + 1)[j] == image[i + 1 + j]);
    }
}

/// The path of a request on image `image` of endpoint `eid`:
/// `images/{image}{tail}`.
pub fn image_path(eid: u32, image: &str, tail: &str) -> (r: String)
    ensures
        r@ == docker_path(eid, "images/"@ + image@ + tail@),
{
    let mut rest = copy_str("images/");
    rest.append(image);
    rest.append(tail);
    docker_path_exec(eid, rest.as_str())
}

} // verus!
