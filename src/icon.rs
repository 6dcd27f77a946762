//! Finding an application bundle's icon and turning it into embeddable text:
//! where the icon container lies inside the bundle, which representation is
//! preferred, and the PNG-then-base64 encoding of the one chosen.
use crate::store::opt_text;
use crate::text::{chars_of, ends_with, ends_with_chars, starts_with};
use base64::Engine;
use vstd::prelude::*;

verus! {

/// The raster representations of an icon container that are used.
#[derive(Debug, Clone, Copy, PartialEq, Eq, Structural)]
pub enum IconKind {
    Rgba128,
    Rgba64,
    Rgba256,
    Rgba32,
}

/// The order in which representations are tried.
pub open spec fn preferred_kinds() -> Seq<IconKind> {
    seq![IconKind::Rgba128, IconKind::Rgba64, IconKind::Rgba256, IconKind::Rgba32]
}

pub fn preferred_icon_kinds() -> (r: Vec<IconKind>)
    ensures
        r@ == preferred_kinds(),
{
    let r = vec![IconKind::Rgba128, IconKind::Rgba64, IconKind::Rgba256, IconKind::Rgba32];
    assert(r@ =~= preferred_kinds());
    r
}

/// The character of the standard base64 alphabet for the six-bit value `v`.
pub open spec fn base64_digit(v: int) -> char {
    if v < 26 {
        (65 + v) as u8 as char
    } else if v < 52 {
        (97 + v - 26) as u8 as char
    } else if v < 62 {
        (48 + v - 52) as u8 as char
    } else if v == 62 {
        '+'
    } else {
        '/'
    }
}

/// Standard base64 with `=` padding: four characters for each group of three
/// bytes, and for a last group of one or two bytes.
pub open spec fn base64_text(b: Seq<u8>) -> Seq<char>
    decreases b.len(),
{
    if b.len() == 0 {
        seq![]
    } else if b.len() == 1 {
        seq![base64_digit((b[0] as int) / 4), base64_digit(((b[0] as int) % 4) * 16), '=', '=']
    } else if b.len() == 2 {
        seq![
            base64_digit((b[0] as int) / 4),
            base64_digit(((b[0] as int) % 4) * 16 + (b[1] as int) / 16),
            base64_digit(((b[1] as int) % 16) * 4),
            '=',
        ]
    } else {
        seq![
            base64_digit((b[0] as int) / 4),
            base64_digit(((b[0] as int) % 4) * 16 + (b[1] as int) / 16),
            base64_digit(((b[1] as int) % 16) * 4 + (b[2] as int) / 64),
            base64_digit((b[2] as int) % 64),
        ] + base64_text(b.subrange(3, b.len() as int))
    }
}

#[verifier::external_body]
fn encode_base64(bytes: &Vec<u8>) -> (r: String)
    requires
        bytes@.len() <= usize::MAX / 2,
    ensures
        r@ == base64_text(bytes@),
{
    base64::engine::general_purpose::STANDARD.encode(bytes)
}

/// A number for each representation, as the names below take it.
pub open spec fn kind_code(k: IconKind) -> int {
    match k {
        IconKind::Rgba128 => 0,
        IconKind::Rgba64 => 1,
        IconKind::Rgba256 => 2,
        IconKind::Rgba32 => 3,
    }
}

pub open spec fn opt_bytes(o: Option<Vec<u8>>) -> Option<Seq<u8>> {
    match o {
        Some(v) => Some(v@),
        None => None,
    }
}

/// What icns gives as PNG for the representation numbered `kind` of the icon
/// container `data`: nothing where the container does not parse, lacks that
/// representation, or it does not encode.
pub uninterp spec fn container_png(data: Seq<u8>, kind: int) -> Option<Seq<u8>>;

/// Relies on `icns::IconFamily::read`, `IconFamily::get_icon_with_type` and
/// `Image::write_png`: they depend on the container's bytes alone.
#[verifier::external_body]
fn png_of_container(data: &[u8], kind: IconKind) -> (r: Option<Vec<u8>>)
    ensures
        opt_bytes(r) == container_png(data@, kind_code(kind)),
{
    let t = match kind {
        IconKind::Rgba128 => icns::IconType::RGBA32_128x128,
        IconKind::Rgba64 => icns::IconType::RGBA32_64x64,
        IconKind::Rgba256 => icns::IconType::RGBA32_256x256,
        IconKind::Rgba32 => icns::IconType::RGBA32_32x32,
    };
    let image = icns::IconFamily::read(data).ok()?.get_icon_with_type(t).ok()?;
    let mut out: Vec<u8> = Vec::new();
    image.write_png(&mut out).ok()?;
    Some(out)
}

/// The text that the property list `data` holds under `key` of its top-level
/// dictionary: nothing where it does not parse, is no dictionary, or holds no
/// text under that key.
pub uninterp spec fn plist_string_of(data: Seq<u8>, key: Seq<char>) -> Option<Seq<char>>;

/// Relies on `plist::Value::from_reader`, `Value::as_dictionary`,
/// `Dictionary::get` and `Value::as_string`: they depend on the bytes and the
/// key alone.
#[verifier::external_body]
fn plist_string(data: &[u8], key: &str) -> (r: Option<String>)
    ensures
        opt_text(r) == plist_string_of(data@, key@),
{
    let v = plist::Value::from_reader(std::io::Cursor::new(data)).ok()?;
    v.as_dictionary()?.get(key)?.as_string().map(|s| s.to_owned())
}

/// The base64 text of PNG bytes, or nothing where the bytes are too many for
/// the text's length to be counted.
pub fn icon_text(png: &Vec<u8>) -> (r: Option<String>)
    ensures
        png@.len() <= usize::MAX / 2 ==> r is Some && r->Some_0@ == base64_text(png@),
        png@.len() > usize::MAX / 2 ==> r is None,
{
    if png.len() <= usize::MAX / 2 {
        Some(encode_base64(png))
    } else {
        None
    }
}

/// The icon text of the first of `kinds` that the container `data` gives a
/// PNG for, where that PNG is short enough to encode.
pub open spec fn first_icon(data: Seq<u8>, kinds: Seq<IconKind>) -> Option<Seq<char>>
    decreases kinds.len(),
{
    if kinds.len() == 0 {
        None
    } else {
        match container_png(data, kind_code(kinds[0])) {
            Some(png) => if png.len() <= usize::MAX / 2 {
                Some(base64_text(png))
            } else {
                first_icon(data, kinds.drop_first())
            },
            None => first_icon(data, kinds.drop_first()),
        }
    }
}

/// The icon of an icon container: the first representation, in the order of
/// `preferred_kinds`, that decodes and encodes as PNG, as base64 text.
pub fn icon_from_container(data: &[u8]) -> (r: Option<String>)
    ensures
        opt_text(r) == first_icon(data@, preferred_kinds()),
{
    let kinds = preferred_icon_kinds();
    let mut i: usize = 0;
    assert(kinds@.skip(0) =~= kinds@);
    while i < kinds.len()
        invariant
            i <= kinds@.len(),
            kinds@ == preferred_kinds(),
            first_icon(data@, kinds@.skip(i as int)) == first_icon(data@, preferred_kinds()),
        decreases kinds@.len() - i,
    {
        assert(kinds@.skip(i as int)[0] == kinds@[i as int]);
        assert(kinds@.skip(i as int).drop_first() =~= kinds@.skip(i + 1));
        if let Some(png) = png_of_container(data, kinds[i]) {
            if let Some(t) = icon_text(&png) {
                return Some(t);
            }
        }
        i = i + 1;
    }
    None
}

/// The extension of an icon container file.
pub open spec fn icns_ext() -> Seq<char> {
    ".icns"@
}

/// The file name of the icon named `name` in a bundle's manifest.
pub open spec fn icon_file_name_spec(name: Seq<char>) -> Seq<char> {
    if ends_with(name, icns_ext()) {
        name
    } else {
        name + icns_ext()
    }
}

pub fn icon_file_name(name: &str) -> (r: String)
    ensures
        r@ == icon_file_name_spec(name@),
{
    let cs = chars_of(name);
    let ext = vec!['.', 'i', 'c', 'n', 's'];
    proof {
        reveal_strlit(".icns");
    }
    assert(ext@ =~= icns_ext());
    let mut r = name.to_owned();
    if !ends_with_chars(&cs, &ext) {
        r.append(".icns");
    }
    r
}

/// `name` appended to the path `dir`, as `Path::join` does on Unix: an
/// absolute `name` replaces `dir`, and a separator is put in where `dir` is
/// not empty and does not end in one.
pub open spec fn join_path_spec(dir: Seq<char>, name: Seq<char>) -> Seq<char> {
    if starts_with(name, seq!['/']) {
        name
    } else if dir.len() == 0 || dir.last() == '/' {
        dir + name
    } else {
        dir + seq!['/'] + name
    }
}

pub fn join_path(dir: &str, name: &str) -> (r: String)
    ensures
        r@ == join_path_spec(dir@, name@),
{
    let n = chars_of(name);
    if n.len() > 0 && n[0] == '/' {
        assert(n@.take(1) =~= seq!['/']);
        return name.to_owned();
    }
    assert(!starts_with(name@, seq!['/'])) by {
        if name@.len() >= 1 {
            assert(name@.take(1)[0] == name@[0]);
        }
    }
    let d = chars_of(dir);
    let mut r = dir.to_owned();
    if !(d.len() == 0 || d[d.len() - 1] == '/') {
        r.append("/");
        proof {
            reveal_strlit("/");
        }
    }
    r.append(name);
    r
}

/// The directory of a bundle's resources.
pub open spec fn resources_dir_spec(app: Seq<char>) -> Seq<char> {
    join_path_spec(join_path_spec(app, "Contents"@), "Resources"@)
}

/// The manifest of the bundle at `app`.
pub fn info_plist_path(app: &str) -> (r: String)
    ensures
        r@ == join_path_spec(join_path_spec(app@, "Contents"@), "Info.plist"@),
{
    let contents = join_path(app, "Contents");
    join_path(contents.as_str(), "Info.plist")
}

/// The icon containers to try for the bundle at `app`, in order: the one
/// that the manifest names, where it names one, then `AppIcon.icns`.
pub fn icon_candidates(app: &str, icon_name: Option<String>) -> (r: Vec<String>)
    ensures
        ({
            let dir = resources_dir_spec(app@);
            let fallback = join_path_spec(dir, "AppIcon.icns"@);
            match icon_name {
                Some(n) => r@.len() == 2 && r@[0]@ == join_path_spec(dir, icon_file_name_spec(n@))
                    && r@[1]@ == fallback,
                None => r@.len() == 1 && r@[0]@ == fallback,
            }
        }),
{
    let contents = join_path(app, "Contents");
    let dir = join_path(contents.as_str(), "Resources");
    let mut r: Vec<String> = Vec::new();
    if let Some(n) = icon_name {
        let file = icon_file_name(n.as_str());
        r.push(join_path(dir.as_str(), file.as_str()));
    }
    r.push(join_path(dir.as_str(), "AppIcon.icns"));
    r
}

/// The icon name that a bundle's manifest gives under `CFBundleIconFile`.
pub fn bundle_icon_name(manifest: &[u8]) -> (r: Option<String>)
    ensures
        opt_text(r) == plist_string_of(manifest@, "CFBundleIconFile"@),
{
    plist_string(manifest, "CFBundleIconFile")
}

} // verus!
