//! The file sink's document builder: one pretty-printed JSON document per
//! entity kind, an array of records. The whole text of each document is
//! specified character by character, so what each record contributes — and
//! that an absent field contributes nothing — is part of the contract.

use vstd::prelude::*;
use crate::api::{
    completed_loved_p, completed_loved_tracks, completed_track_p, completed_tracks, Date, Friend,
    Image, ImageSize, LovedTrack, Track, TrackAttributes,
};
use crate::text::{dec_i64_str, hex_digit_char, i64_to_string, push_char};

verus! {

/// How one character appears inside a JSON string literal: quotes and
/// backslashes are escaped, control characters with a short escape use
/// it, the rest of the control range uses a unicode escape, and
/// everything else stands for itself.
pub open spec fn esc_char(c: char) -> Seq<char> {
    if c == '"' {
        seq!['\\', '"']
    } else if c == '\\' {
        seq!['\\', '\\']
    } else if c == '\n' {
        seq!['\\', 'n']
    } else if c == '\r' {
        seq!['\\', 'r']
    } else if c == '\t' {
        seq!['\\', 't']
    } else if (c as u32) == 8 {
        seq!['\\', 'b']
    } else if (c as u32) == 12 {
        seq!['\\', 'f']
    } else if (c as u32) < 32 {
        let u = c as u32 as int;
        seq!['\\', 'u', '0', '0', hex_digit_char(u / 16), hex_digit_char(u % 16)]
    } else {
        seq![c]
    }
}

/// A text with every character escaped for a JSON string literal.
pub open spec fn escaped(s: Seq<char>) -> Seq<char>
    decreases s.len(),
{
    if s.len() == 0 {
        Seq::empty()
    } else {
        escaped(s.drop_last()) + esc_char(s.last())
    }
}

/// A JSON string literal: the escaped text between double quotes.
pub open spec fn jstr(s: Seq<char>) -> Seq<char> {
    seq!['"'] + escaped(s) + seq!['"']
}

/// Appends a JSON string literal for the given text.
pub fn write_jstr(out: &mut String, s: &str)
    ensures
        final(out)@ == old(out)@ + jstr(s@),
{
    let ghost start = out@;
    push_char(out, '"');
    let n = s.unicode_len();
    let mut i: usize = 0;
    proof {
        assert(s@.take(0) =~= Seq::<char>::empty());
        assert(out@ =~= start + seq!['"'] + escaped(s@.take(0)));
    }
    while i < n
        invariant
            i <= n,
            n == s@.len(),
            out@ == start + seq!['"'] + escaped(s@.take(i as int)),
        decreases n - i,
    {
        let c = s.get_char(i);
        proof {
            assert(s@.take(i + 1).drop_last() =~= s@.take(i as int));
            assert(s@.take(i + 1).last() == s@[i as int]);
        }
        let cu = c as u32;
        if c == '"' {
            push_char(out, '\\');
            push_char(out, '"');
        } else if c == '\\' {
            push_char(out, '\\');
            push_char(out, '\\');
        } else if c == '\n' {
            push_char(out, '\\');
            push_char(out, 'n');
        } else if c == '\r' {
            push_char(out, '\\');
            push_char(out, 'r');
        } else if c == '\t' {
            push_char(out, '\\');
            push_char(out, 't');
        } else if cu == 8 {
            push_char(out, '\\');
            push_char(out, 'b');
        } else if cu == 12 {
            push_char(out, '\\');
            push_char(out, 'f');
        } else if cu < 32 {
            push_char(out, '\\');
            push_char(out, 'u');
            push_char(out, '0');
            push_char(out, '0');
            let hi = (cu / 16) as u8;
            let lo = (cu % 16) as u8;
            push_char(out, if hi < 10 {
                (48 + hi) as char
            } else {
                (87 + hi) as char
            });
            push_char(out, if lo < 10 {
                (48 + lo) as char
            } else {
                (87 + lo) as char
            });
        } else {
            push_char(out, c);
        }
        proof {
            assert(out@ =~= start + seq!['"'] + escaped(s@.take(i + 1)));
        }
        i = i + 1;
    }
    push_char(out, '"');
    proof {
        assert(s@.take(n as int) =~= s@);
        assert(out@ =~= start + jstr(s@));
    }
}

/// A run of spaces, for indentation.
pub open spec fn spaces(n: nat) -> Seq<char>
    decreases n,
{
    if n == 0 {
        Seq::empty()
    } else {
        spaces((n - 1) as nat).push(' ')
    }
}

/// Appends a run of spaces.
pub fn write_spaces(out: &mut String, n: usize)
    ensures
        final(out)@ == old(out)@ + spaces(n as nat),
{
    let ghost start = out@;
    let mut i: usize = 0;
    proof {
        assert(out@ =~= start + spaces(0));
    }
    while i < n
        invariant
            i <= n,
            out@ == start + spaces(i as nat),
        decreases n - i,
    {
        push_char(out, ' ');
        i = i + 1;
    }
}

/// The JSON rendering of a boolean.
pub open spec fn jbool(b: bool) -> Seq<char> {
    if b {
        "true"@
    } else {
        "false"@
    }
}

/// Appends a JSON boolean.
pub fn write_jbool(out: &mut String, b: bool)
    ensures
        final(out)@ == old(out)@ + jbool(b),
{
    if b {
        out.append("true");
    } else {
        out.append("false");
    }
}

/// Appends a JSON number.
pub fn write_jnum(out: &mut String, v: i64)
    ensures
        final(out)@ == old(out)@ + dec_i64_str(v as int),
{
    let s = i64_to_string(v);
    out.append(s.as_str());
}

/// The tag each size class serializes to.
pub open spec fn size_text(s: ImageSize) -> Seq<char> {
    match s {
        ImageSize::Small => "small"@,
        ImageSize::Medium => "medium"@,
        ImageSize::Large => "large"@,
        ImageSize::ExtraLarge => "extralarge"@,
    }
}

/// The attribute block object appended to `p`.
pub open spec fn attrs_json_app(p: Seq<char>, a: TrackAttributes, ind: nat) -> Seq<char> {
    p + "{\n"@ + spaces(ind + 2) + jstr("now_playing"@) + ": "@ + jbool(a.now_playing) + "\n"@
        + spaces(ind) + "}"@
}

fn write_attrs(out: &mut String, a: &TrackAttributes, ind: usize)
    requires
        ind + 2 <= usize::MAX,
    ensures
        final(out)@ == attrs_json_app(old(out)@, *a, ind as nat),
{
    out.append("{\n");
    write_spaces(out, ind + 2);
    write_jstr(out, "now_playing");
    out.append(": ");
    write_jbool(out, a.now_playing);
    out.append("\n");
    write_spaces(out, ind);
    out.append("}");
}

/// An artist or album object appended to `p`: a name, and the external
/// identifier only where one is present — an absent identifier
/// contributes nothing.
pub open spec fn named_mbid_json_app(p: Seq<char>, name: Seq<char>, mbid: Option<String>, ind: nat) -> Seq<char> {
    let head = p + "{\n"@ + spaces(ind + 2) + jstr("name"@) + ": "@ + jstr(name);
    let with_mbid = match mbid {
        Option::Some(m) => head + ",\n"@ + spaces(ind + 2) + jstr("mbid"@) + ": "@ + jstr(m@),
        Option::None => head,
    };
    with_mbid + "\n"@ + spaces(ind) + "}"@
}

fn write_named_mbid(out: &mut String, name: &String, mbid: &Option<String>, ind: usize)
    requires
        ind + 2 <= usize::MAX,
    ensures
        final(out)@ == named_mbid_json_app(old(out)@, name@, *mbid, ind as nat),
{
    out.append("{\n");
    write_spaces(out, ind + 2);
    write_jstr(out, "name");
    out.append(": ");
    write_jstr(out, name.as_str());
    match mbid {
        Some(m) => {
            out.append(",\n");
            write_spaces(out, ind + 2);
            write_jstr(out, "mbid");
            out.append(": ");
            write_jstr(out, m.as_str());
        },
        None => {},
    }
    out.append("\n");
    write_spaces(out, ind);
    out.append("}");
}

/// A date object appended to `p`: the readable text, and the canonical
/// timestamp as a number of seconds.
pub open spec fn date_json_app(p: Seq<char>, pretty: Seq<char>, ts: int, ind: nat) -> Seq<char> {
    p + "{\n"@ + spaces(ind + 2) + jstr("pretty_string"@) + ": "@ + jstr(pretty) + ",\n"@
        + spaces(ind + 2) + jstr("timestamp"@) + ": "@ + dec_i64_str(ts) + "\n"@ + spaces(ind)
        + "}"@
}

fn write_date(out: &mut String, pretty: &String, ts: i64, ind: usize)
    requires
        ind + 2 <= usize::MAX,
    ensures
        final(out)@ == date_json_app(old(out)@, pretty@, ts as int, ind as nat),
{
    out.append("{\n");
    write_spaces(out, ind + 2);
    write_jstr(out, "pretty_string");
    out.append(": ");
    write_jstr(out, pretty.as_str());
    out.append(",\n");
    write_spaces(out, ind + 2);
    write_jstr(out, "timestamp");
    out.append(": ");
    write_jnum(out, ts);
    out.append("\n");
    write_spaces(out, ind);
    out.append("}");
}

// The object and document shapes below are written in accumulator form:
// each function takes the text built so far and returns it with the
// object appended. That makes the specification follow the writer's
// appends step for step.

/// An image variant object appended to `p`: the URL only where one is
/// present, then the size tag.
pub open spec fn image_json_app(p: Seq<char>, img: Image, ind: nat) -> Seq<char> {
    let with_url = match img.url {
        Option::Some(u) => p + "{\n"@ + spaces(ind + 2) + jstr("url"@) + ": "@ + jstr(u@) + ",\n"@,
        Option::None => p + "{\n"@,
    };
    with_url + spaces(ind + 2) + jstr("size"@) + ": "@ + jstr(size_text(img.size)) + "\n"@
        + spaces(ind) + "}"@
}

fn write_image(out: &mut String, img: &Image, ind: usize)
    requires
        ind + 2 <= usize::MAX,
    ensures
        final(out)@ == image_json_app(old(out)@, *img, ind as nat),
{
    out.append("{\n");
    match &img.url {
        Some(u) => {
            write_spaces(out, ind + 2);
            write_jstr(out, "url");
            out.append(": ");
            write_jstr(out, u.as_str());
            out.append(",\n");
        },
        None => {},
    }
    write_spaces(out, ind + 2);
    write_jstr(out, "size");
    out.append(": ");
    match img.size {
        ImageSize::Small => write_jstr(out, "small"),
        ImageSize::Medium => write_jstr(out, "medium"),
        ImageSize::Large => write_jstr(out, "large"),
        ImageSize::ExtraLarge => write_jstr(out, "extralarge"),
    }
    out.append("\n");
    write_spaces(out, ind);
    out.append("}");
}

/// The elements of an image array appended to `p`, one per line,
/// separated by commas.
pub open spec fn image_items_app(p: Seq<char>, imgs: Seq<Image>, ind: nat) -> Seq<char>
    decreases imgs.len(),
{
    if imgs.len() == 0 {
        p
    } else if imgs.len() == 1 {
        image_json_app(p + spaces(ind), imgs[0], ind)
    } else {
        image_json_app(
            image_items_app(p, imgs.drop_last(), ind) + ",\n"@ + spaces(ind),
            imgs.last(),
            ind,
        )
    }
}

/// An image array appended to `p`: empty brackets for no variants, one
/// variant per line otherwise.
pub open spec fn images_json_app(p: Seq<char>, imgs: Seq<Image>, ind: nat) -> Seq<char> {
    if imgs.len() == 0 {
        p + "[]"@
    } else {
        image_items_app(p + "[\n"@, imgs, ind + 2) + "\n"@ + spaces(ind) + "]"@
    }
}

fn write_images(out: &mut String, imgs: &Vec<Image>, ind: usize)
    requires
        ind + 4 <= usize::MAX,
    ensures
        final(out)@ == images_json_app(old(out)@, imgs@, ind as nat),
{
    let ghost start = out@;
    let n = imgs.len();
    if n == 0 {
        out.append("[]");
        return ;
    }
    out.append("[\n");
    let mut i: usize = 0;
    while i < n
        invariant
            i <= n,
            0 < n == imgs@.len(),
            ind + 4 <= usize::MAX,
            out@ == image_items_app(start + "[\n"@, imgs@.take(i as int), ind as nat + 2),
        decreases n - i,
    {
        if i > 0 {
            out.append(",\n");
        }
        write_spaces(out, ind + 2);
        write_image(out, &imgs[i], ind + 2);
        proof {
            assert(imgs@.take(i + 1).drop_last() =~= imgs@.take(i as int));
            assert(imgs@.take(i + 1).last() == imgs@[i as int]);
        }
        i = i + 1;
    }
    out.append("\n");
    write_spaces(out, ind);
    out.append("]");
    proof {
        assert(imgs@.take(n as int) =~= imgs@);
    }
}

/// The attribute-block segment of a record appended to `p`: nothing when
/// the block is absent. It leads the record, so its comma follows it.
pub open spec fn attrs_seg_app(p: Seq<char>, o: Option<TrackAttributes>, ind: nat) -> Seq<char> {
    match o {
        Option::Some(a) => attrs_json_app(p + spaces(ind) + jstr("attributes"@) + ": "@, a, ind)
            + ",\n"@,
        Option::None => p,
    }
}

fn write_attrs_seg(out: &mut String, o: &Option<TrackAttributes>, ind: usize)
    requires
        ind + 2 <= usize::MAX,
    ensures
        final(out)@ == attrs_seg_app(old(out)@, *o, ind as nat),
{
    match o {
        Some(a) => {
            write_spaces(out, ind);
            write_jstr(out, "attributes");
            out.append(": ");
            write_attrs(out, a, ind);
            out.append(",\n");
        },
        None => {},
    }
}

/// The album segment of a record appended to `p`: nothing when the album
/// is absent.
pub open spec fn album_seg_app(p: Seq<char>, o: Option<crate::api::Album>, ind: nat) -> Seq<
    char,
> {
    match o {
        Option::Some(a) => named_mbid_json_app(
            p + ",\n"@ + spaces(ind) + jstr("album"@) + ": "@,
            a.name@,
            a.mbid,
            ind,
        ),
        Option::None => p,
    }
}

/// The date segment of a record appended to `p`: nothing when the record
/// has no completion date.
pub open spec fn date_seg_app(p: Seq<char>, o: Option<Date>, ind: nat) -> Seq<char> {
    match o {
        Option::Some(d) => date_json_app(
            p + ",\n"@ + spaces(ind) + jstr("date"@) + ": "@,
            d.pretty_string@,
            d.timestamp as int,
            ind,
        ),
        Option::None => p,
    }
}

fn write_date_seg(out: &mut String, o: &Option<Date>, ind: usize)
    requires
        ind + 2 <= usize::MAX,
    ensures
        final(out)@ == date_seg_app(old(out)@, *o, ind as nat),
{
    match o {
        Some(d) => {
            out.append(",\n");
            write_spaces(out, ind);
            write_jstr(out, "date");
            out.append(": ");
            write_date(out, &d.pretty_string, d.timestamp, ind);
        },
        None => {},
    }
}

/// The external-identifier segment of a record appended to `p`: nothing
/// when the identifier is absent — an absent field is never re-serialized
/// as an empty string.
pub open spec fn mbid_seg_app(p: Seq<char>, o: Option<String>, ind: nat) -> Seq<char> {
    match o {
        Option::Some(m) => p + ",\n"@ + spaces(ind) + jstr("mbid"@) + ": "@ + jstr(m@),
        Option::None => p,
    }
}

fn write_mbid_seg(out: &mut String, o: &Option<String>, ind: usize)
    ensures
        final(out)@ == mbid_seg_app(old(out)@, *o, ind as nat),
{
    match o {
        Some(m) => {
            out.append(",\n");
            write_spaces(out, ind);
            write_jstr(out, "mbid");
            out.append(": ");
            write_jstr(out, m.as_str());
        },
        None => {},
    }
}

/// The display-name segment of a friend appended to `p`: nothing when it
/// is absent.
pub open spec fn real_name_seg_app(p: Seq<char>, o: Option<String>, ind: nat) -> Seq<char> {
    match o {
        Option::Some(m) => p + ",\n"@ + spaces(ind) + jstr("real_name"@) + ": "@ + jstr(m@),
        Option::None => p,
    }
}

/// One play record appended to `p` as a JSON object. Absent optional
/// fields contribute no text at all.
pub open spec fn track_json_app(p: Seq<char>, t: Track, ind: nat) -> Seq<char> {
    let p1 = attrs_seg_app(p + "{\n"@, t.attributes, ind + 2);
    let p2 = named_mbid_json_app(
        p1 + spaces(ind + 2) + jstr("artist"@) + ": "@,
        t.artist.name@,
        t.artist.mbid,
        ind + 2,
    );
    let p3 = album_seg_app(p2, t.album, ind + 2);
    let p4 = p3 + ",\n"@ + spaces(ind + 2) + jstr("name"@) + ": "@ + jstr(t.name@);
    let p5 = images_json_app(
        p4 + ",\n"@ + spaces(ind + 2) + jstr("image"@) + ": "@,
        t.image@,
        ind + 2,
    );
    let p6 = date_seg_app(p5, t.date, ind + 2);
    let p7 = p6 + ",\n"@ + spaces(ind + 2) + jstr("url"@) + ": "@ + jstr(t.url@);
    let p8 = mbid_seg_app(p7, t.mbid, ind + 2);
    p8 + "\n"@ + spaces(ind) + "}"@
}

fn write_track(out: &mut String, t: &Track, ind: usize)
    requires
        ind + 6 <= usize::MAX,
    ensures
        final(out)@ == track_json_app(old(out)@, *t, ind as nat),
{
    out.append("{\n");
    write_attrs_seg(out, &t.attributes, ind + 2);
    write_spaces(out, ind + 2);
    write_jstr(out, "artist");
    out.append(": ");
    write_named_mbid(out, &t.artist.name, &t.artist.mbid, ind + 2);
    match &t.album {
        Some(a) => {
            out.append(",\n");
            write_spaces(out, ind + 2);
            write_jstr(out, "album");
            out.append(": ");
            write_named_mbid(out, &a.name, &a.mbid, ind + 2);
        },
        None => {},
    }
    out.append(",\n");
    write_spaces(out, ind + 2);
    write_jstr(out, "name");
    out.append(": ");
    write_jstr(out, t.name.as_str());
    out.append(",\n");
    write_spaces(out, ind + 2);
    write_jstr(out, "image");
    out.append(": ");
    write_images(out, &t.image, ind + 2);
    write_date_seg(out, &t.date, ind + 2);
    out.append(",\n");
    write_spaces(out, ind + 2);
    write_jstr(out, "url");
    out.append(": ");
    write_jstr(out, t.url.as_str());
    write_mbid_seg(out, &t.mbid, ind + 2);
    out.append("\n");
    write_spaces(out, ind);
    out.append("}");
}

/// One loved track appended to `p` as a JSON object: the same shape as a
/// play record, minus the album.
pub open spec fn loved_track_json_app(p: Seq<char>, t: LovedTrack, ind: nat) -> Seq<char> {
    let p1 = attrs_seg_app(p + "{\n"@, t.attributes, ind + 2);
    let p2 = named_mbid_json_app(
        p1 + spaces(ind + 2) + jstr("artist"@) + ": "@,
        t.artist.name@,
        t.artist.mbid,
        ind + 2,
    );
    let p3 = p2 + ",\n"@ + spaces(ind + 2) + jstr("name"@) + ": "@ + jstr(t.name@);
    let p4 = images_json_app(
        p3 + ",\n"@ + spaces(ind + 2) + jstr("image"@) + ": "@,
        t.image@,
        ind + 2,
    );
    let p5 = date_seg_app(p4, t.date, ind + 2);
    let p6 = p5 + ",\n"@ + spaces(ind + 2) + jstr("url"@) + ": "@ + jstr(t.url@);
    let p7 = mbid_seg_app(p6, t.mbid, ind + 2);
    p7 + "\n"@ + spaces(ind) + "}"@
}

fn write_loved_track(out: &mut String, t: &LovedTrack, ind: usize)
    requires
        ind + 6 <= usize::MAX,
    ensures
        final(out)@ == loved_track_json_app(old(out)@, *t, ind as nat),
{
    out.append("{\n");
    write_attrs_seg(out, &t.attributes, ind + 2);
    write_spaces(out, ind + 2);
    write_jstr(out, "artist");
    out.append(": ");
    write_named_mbid(out, &t.artist.name, &t.artist.mbid, ind + 2);
    out.append(",\n");
    write_spaces(out, ind + 2);
    write_jstr(out, "name");
    out.append(": ");
    write_jstr(out, t.name.as_str());
    out.append(",\n");
    write_spaces(out, ind + 2);
    write_jstr(out, "image");
    out.append(": ");
    write_images(out, &t.image, ind + 2);
    write_date_seg(out, &t.date, ind + 2);
    out.append(",\n");
    write_spaces(out, ind + 2);
    write_jstr(out, "url");
    out.append(": ");
    write_jstr(out, t.url.as_str());
    write_mbid_seg(out, &t.mbid, ind + 2);
    out.append("\n");
    write_spaces(out, ind);
    out.append("}");
}

/// One friend appended to `p` as a JSON object.
pub open spec fn friend_json_app(p: Seq<char>, f: Friend, ind: nat) -> Seq<char> {
    let p1 = p + "{\n"@ + spaces(ind + 2) + jstr("name"@) + ": "@ + jstr(f.name@);
    let p2 = images_json_app(
        p1 + ",\n"@ + spaces(ind + 2) + jstr("image"@) + ": "@,
        f.image@,
        ind + 2,
    );
    let p3 = p2 + ",\n"@ + spaces(ind + 2) + jstr("country"@) + ": "@ + jstr(f.country@);
    let p4 = p3 + ",\n"@ + spaces(ind + 2) + jstr("url"@) + ": "@ + jstr(f.url@);
    let p5 = p4 + ",\n"@ + spaces(ind + 2) + jstr("subscriber"@) + ": "@ + jbool(f.subscriber);
    let p6 = real_name_seg_app(p5, f.real_name, ind + 2);
    let p7 = date_json_app(
        p6 + ",\n"@ + spaces(ind + 2) + jstr("registered"@) + ": "@,
        f.registered.pretty_string@,
        f.registered.timestamp as int,
        ind + 2,
    );
    p7 + "\n"@ + spaces(ind) + "}"@
}

fn write_friend(out: &mut String, f: &Friend, ind: usize)
    requires
        ind + 6 <= usize::MAX,
    ensures
        final(out)@ == friend_json_app(old(out)@, *f, ind as nat),
{
    out.append("{\n");
    write_spaces(out, ind + 2);
    write_jstr(out, "name");
    out.append(": ");
    write_jstr(out, f.name.as_str());
    out.append(",\n");
    write_spaces(out, ind + 2);
    write_jstr(out, "image");
    out.append(": ");
    write_images(out, &f.image, ind + 2);
    out.append(",\n");
    write_spaces(out, ind + 2);
    write_jstr(out, "country");
    out.append(": ");
    write_jstr(out, f.country.as_str());
    out.append(",\n");
    write_spaces(out, ind + 2);
    write_jstr(out, "url");
    out.append(": ");
    write_jstr(out, f.url.as_str());
    out.append(",\n");
    write_spaces(out, ind + 2);
    write_jstr(out, "subscriber");
    out.append(": ");
    write_jbool(out, f.subscriber);
    match &f.real_name {
        Some(m) => {
            out.append(",\n");
            write_spaces(out, ind + 2);
            write_jstr(out, "real_name");
            out.append(": ");
            write_jstr(out, m.as_str());
        },
        None => {},
    }
    out.append(",\n");
    write_spaces(out, ind + 2);
    write_jstr(out, "registered");
    out.append(": ");
    write_date(out, &f.registered.pretty_string, f.registered.timestamp, ind + 2);
    out.append("\n");
    write_spaces(out, ind);
    out.append("}");
}

/// Empty-string-to-absent, through export: an identifier that arrives as
/// the empty string normalizes to an absent value, and an absent
/// identifier contributes nothing to an exported record — so it can never
/// reappear as an empty string in the document.
pub proof fn lemma_empty_mbid_never_exported(s: Seq<char>, p: Seq<char>, ind: nat)
    requires
        s.len() == 0,
    ensures
        crate::normalize::norm_opt(s) is None,
        mbid_seg_app(p, Option::None, ind) == p,
        real_name_seg_app(p, Option::None, ind) == p,
{
}

/// The records of a history document appended to `p`, one per line,
/// separated by commas, in sequence order.
pub open spec fn track_items_app(p: Seq<char>, ts: Seq<Track>, ind: nat) -> Seq<char>
    decreases ts.len(),
{
    if ts.len() == 0 {
        p
    } else if ts.len() == 1 {
        track_json_app(p + spaces(ind), ts[0], ind)
    } else {
        track_json_app(track_items_app(p, ts.drop_last(), ind) + ",\n"@ + spaces(ind), ts.last(), ind)
    }
}

/// The whole history document: an array of the records, pretty-printed;
/// empty brackets when there are none.
pub open spec fn scrobbles_doc(ts: Seq<Track>) -> Seq<char> {
    if ts.len() == 0 {
        "[]"@
    } else {
        track_items_app("[\n"@, ts, 2) + "\n]"@
    }
}

/// Now-playing exclusion, through export: appending an in-flight record
/// to a batch leaves the exported history document unchanged.
pub proof fn lemma_now_playing_never_exported(ts: Seq<Track>, t: Track)
    requires
        t.spec_now_playing(),
    ensures
        scrobbles_doc(ts.push(t).filter(completed_track_p())) == scrobbles_doc(
            ts.filter(completed_track_p()),
        ),
{
    reveal(Seq::filter);
    assert(ts.push(t).drop_last() =~= ts);
    assert(ts.push(t).filter(completed_track_p()) =~= ts.filter(completed_track_p()));
}

/// Renders a batch of play records as one pretty-printed JSON document,
/// an array of records. In-flight ("now playing") records are excluded:
/// the document holds the completed records alone.
pub fn scrobbles_json(tracks: Vec<Track>) -> (s: String)
    ensures
        s@ == scrobbles_doc(tracks@.filter(completed_track_p())),
{
    let kept = completed_tracks(tracks);
    let tracks = &kept;
    let mut out = String::new();
    let n = tracks.len();
    if n == 0 {
        out.append("[]");
        proof {
            assert(out@ =~= "[]"@);
        }
        return out;
    }
    out.append("[\n");
    proof {
        assert(out@ =~= "[\n"@);
    }
    let mut i: usize = 0;
    while i < n
        invariant
            i <= n,
            0 < n == tracks@.len(),
            out@ == track_items_app("[\n"@, tracks@.take(i as int), 2),
        decreases n - i,
    {
        if i > 0 {
            out.append(",\n");
        }
        write_spaces(&mut out, 2);
        write_track(&mut out, &tracks[i], 2);
        proof {
            assert(tracks@.take(i + 1).drop_last() =~= tracks@.take(i as int));
            assert(tracks@.take(i + 1).last() == tracks@[i as int]);
        }
        i = i + 1;
    }
    out.append("\n]");
    proof {
        assert(tracks@.take(n as int) =~= tracks@);
    }
    out
}

/// The records of a loved-track document appended to `p`.
pub open spec fn loved_items_app(p: Seq<char>, ts: Seq<LovedTrack>, ind: nat) -> Seq<char>
    decreases ts.len(),
{
    if ts.len() == 0 {
        p
    } else if ts.len() == 1 {
        loved_track_json_app(p + spaces(ind), ts[0], ind)
    } else {
        loved_track_json_app(
            loved_items_app(p, ts.drop_last(), ind) + ",\n"@ + spaces(ind),
            ts.last(),
            ind,
        )
    }
}

/// The whole loved-track document.
pub open spec fn loved_tracks_doc(ts: Seq<LovedTrack>) -> Seq<char> {
    if ts.len() == 0 {
        "[]"@
    } else {
        loved_items_app("[\n"@, ts, 2) + "\n]"@
    }
}

/// Now-playing exclusion for the loved-track document: the same, record
/// for record.
pub proof fn lemma_now_playing_never_exported_loved(ts: Seq<LovedTrack>, t: LovedTrack)
    requires
        t.spec_now_playing(),
    ensures
        loved_tracks_doc(ts.push(t).filter(completed_loved_p())) == loved_tracks_doc(
            ts.filter(completed_loved_p()),
        ),
{
    reveal(Seq::filter);
    assert(ts.push(t).drop_last() =~= ts);
    assert(ts.push(t).filter(completed_loved_p()) =~= ts.filter(completed_loved_p()));
}

/// Renders a batch of loved tracks as one pretty-printed JSON document.
/// In-flight records are excluded, as in `scrobbles_json`.
pub fn loved_tracks_json(tracks: Vec<LovedTrack>) -> (s: String)
    ensures
        s@ == loved_tracks_doc(tracks@.filter(completed_loved_p())),
{
    let kept = completed_loved_tracks(tracks);
    let tracks = &kept;
    let mut out = String::new();
    let n = tracks.len();
    if n == 0 {
        out.append("[]");
        proof {
            assert(out@ =~= "[]"@);
        }
        return out;
    }
    out.append("[\n");
    proof {
        assert(out@ =~= "[\n"@);
    }
    let mut i: usize = 0;
    while i < n
        invariant
            i <= n,
            0 < n == tracks@.len(),
            out@ == loved_items_app("[\n"@, tracks@.take(i as int), 2),
        decreases n - i,
    {
        if i > 0 {
            out.append(",\n");
        }
        write_spaces(&mut out, 2);
        write_loved_track(&mut out, &tracks[i], 2);
        proof {
            assert(tracks@.take(i + 1).drop_last() =~= tracks@.take(i as int));
            assert(tracks@.take(i + 1).last() == tracks@[i as int]);
        }
        i = i + 1;
    }
    out.append("\n]");
    proof {
        assert(tracks@.take(n as int) =~= tracks@);
    }
    out
}

/// The records of a friends document appended to `p`.
pub open spec fn friend_items_app(p: Seq<char>, fs: Seq<Friend>, ind: nat) -> Seq<char>
    decreases fs.len(),
{
    if fs.len() == 0 {
        p
    } else if fs.len() == 1 {
        friend_json_app(p + spaces(ind), fs[0], ind)
    } else {
        friend_json_app(
            friend_items_app(p, fs.drop_last(), ind) + ",\n"@ + spaces(ind),
            fs.last(),
            ind,
        )
    }
}

/// The whole friends document.
pub open spec fn friends_doc(fs: Seq<Friend>) -> Seq<char> {
    if fs.len() == 0 {
        "[]"@
    } else {
        friend_items_app("[\n"@, fs, 2) + "\n]"@
    }
}

/// Renders a batch of friend records as one pretty-printed JSON document.
pub fn friends_json(friends: &Vec<Friend>) -> (s: String)
    ensures
        s@ == friends_doc(friends@),
{
    let mut out = String::new();
    let n = friends.len();
    if n == 0 {
        out.append("[]");
        proof {
            assert(out@ =~= "[]"@);
        }
        return out;
    }
    out.append("[\n");
    proof {
        assert(out@ =~= "[\n"@);
    }
    let mut i: usize = 0;
    while i < n
        invariant
            i <= n,
            0 < n == friends@.len(),
            out@ == friend_items_app("[\n"@, friends@.take(i as int), 2),
        decreases n - i,
    {
        if i > 0 {
            out.append(",\n");
        }
        write_spaces(&mut out, 2);
        write_friend(&mut out, &friends[i], 2);
        proof {
            assert(friends@.take(i + 1).drop_last() =~= friends@.take(i as int));
            assert(friends@.take(i + 1).last() == friends@[i as int]);
        }
        i = i + 1;
    }
    out.append("\n]");
    proof {
        assert(friends@.take(n as int) =~= friends@);
    }
    out
}

} // verus!
