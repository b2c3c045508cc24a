//! File categories by extension, and the fixed SQL filter each category gives.
use vstd::prelude::*;
use crate::error::{ChatVaultError, msg};
use crate::text::{lowercase_of, str_eq, to_lowercase};

verus! {

/// Extensions of the `doc` category.
pub open spec fn doc_exts() -> Seq<Seq<char>> {
    seq!["pdf"@, "doc"@, "docx"@, "xls"@, "xlsx"@, "ppt"@, "pptx"@, "txt"@, "md"@, "csv"@]
}

/// Extensions of the `image` category.
pub open spec fn image_exts() -> Seq<Seq<char>> {
    seq!["jpg"@, "jpeg"@, "png"@, "gif"@, "webp"@, "bmp"@, "svg"@, "ico"@]
}

/// Extensions of the `video` category.
pub open spec fn video_exts() -> Seq<Seq<char>> {
    seq!["mp4"@, "mov"@, "avi"@, "mkv"@, "flv"@, "wmv"@]
}

/// Extensions of the `audio` category.
pub open spec fn audio_exts() -> Seq<Seq<char>> {
    seq!["mp3"@, "wav"@, "ogg"@, "flac"@, "m4a"@, "aac"@]
}

/// Extensions of the `archive` category.
pub open spec fn archive_exts() -> Seq<Seq<char>> {
    seq!["zip"@, "rar"@, "7z"@, "tar"@, "gz"@]
}

/// The extensions of a named category, if the name is one.
pub open spec fn category_exts(name: Seq<char>) -> Option<Seq<Seq<char>>> {
    if name == "doc"@ { Some(doc_exts()) }
    else if name == "image"@ { Some(image_exts()) }
    else if name == "video"@ { Some(video_exts()) }
    else if name == "audio"@ { Some(audio_exts()) }
    else if name == "archive"@ { Some(archive_exts()) }
    else { None }
}

/// Every categorized extension, in table order.
pub open spec fn all_exts() -> Seq<Seq<char>> {
    doc_exts() + image_exts() + video_exts() + audio_exts() + archive_exts()
}

/// The category of a lower-cased extension; `other` when no category lists it.
pub open spec fn category_of_ext(ext: Seq<char>) -> Seq<char> {
    if doc_exts().contains(ext) { "doc"@ }
    else if image_exts().contains(ext) { "image"@ }
    else if video_exts().contains(ext) { "video"@ }
    else if audio_exts().contains(ext) { "audio"@ }
    else if archive_exts().contains(ext) { "archive"@ }
    else { "other"@ }
}

/// Text after the last `.`, or nothing when there is no `.` (what
/// `rsplit_once('.')` leaves on the right).
pub open spec fn ext_after_dot(s: Seq<char>) -> Seq<char>
    decreases s.len(),
{
    if s.len() == 0 || s.last() == '.' {
        Seq::empty()
    } else if s.drop_last().contains('.') {
        ext_after_dot(s.drop_last()).push(s.last())
    } else {
        Seq::empty()
    }
}

proof fn lemma_ext_after_dot(s: Seq<char>, k: int)
    requires
        1 <= k <= s.len(),
        s[k - 1] == '.',
        !s.subrange(k, s.len() as int).contains('.'),
    ensures
        ext_after_dot(s) == s.subrange(k, s.len() as int),
    decreases s.len() - k,
{
    if k == s.len() {
        assert(s.subrange(k, s.len() as int) =~= Seq::<char>::empty());
    } else {
        let t = s.drop_last();
        assert(s.last() == s.subrange(k, s.len() as int).last());
        assert(s.last() != '.');
        assert(t.subrange(k, t.len() as int) =~= s.subrange(k, s.len() - 1));
        assert forall|x: int| 0 <= x < t.subrange(k, t.len() as int).len() implies #[trigger] t.subrange(k, t.len() as int)[x] != '.' by {
            assert(t.subrange(k, t.len() as int)[x] == s.subrange(k, s.len() as int)[x]);
        }
        lemma_ext_after_dot(t, k);
        assert(t[k - 1] == '.');
        assert(t.contains('.'));
        assert(s.subrange(k, s.len() as int) =~= t.subrange(k, t.len() as int).push(s.last()));
    }
}

proof fn lemma_no_dot(s: Seq<char>)
    requires
        !s.contains('.'),
    ensures
        ext_after_dot(s) == Seq::<char>::empty(),
{
    if s.len() > 0 {
        assert(s.last() == s[s.len() - 1]);
        if s.drop_last().contains('.') {
            let x = choose|x: int| 0 <= x < s.drop_last().len() && s.drop_last()[x] == '.';
            assert(s[x] == '.');
        }
    }
}

/// The extension of a name: text after its last `.`, or empty.
pub fn extension_after_dot(s: &str) -> (r: &str)
    ensures
        r@ == ext_after_dot(s@),
{
    let n = s.unicode_len();
    let mut k = n;
    while k > 0 && s.get_char(k - 1) != '.'
        invariant
            n == s@.len(),
            k <= n,
            !s@.subrange(k as int, n as int).contains('.'),
        decreases k,
    {
        proof {
            assert forall|x: int| 0 <= x < s@.subrange(k - 1, n as int).len() implies #[trigger] s@.subrange(k - 1, n as int)[x] != '.' by {
                if x > 0 {
                    assert(s@.subrange(k - 1, n as int)[x] == s@.subrange(k as int, n as int)[x - 1]);
                }
            }
        }
        k = k - 1;
    }
    if k == 0 {
        proof {
            assert(s@.subrange(0, n as int) =~= s@);
            lemma_no_dot(s@);
        }
        s.substring_char(0, 0)
    } else {
        proof { lemma_ext_after_dot(s@, k as int); }
        s.substring_char(k, n)
    }
}

fn doc_list() -> (v: Vec<&'static str>)
    ensures v@.map_values(|s: &str| s@) == doc_exts(),
{
    let v = vec!["pdf", "doc", "docx", "xls", "xlsx", "ppt", "pptx", "txt", "md", "csv"];
    assert(v@.map_values(|s: &str| s@) =~= doc_exts());
    v
}

fn image_list() -> (v: Vec<&'static str>)
    ensures v@.map_values(|s: &str| s@) == image_exts(),
{
    let v = vec!["jpg", "jpeg", "png", "gif", "webp", "bmp", "svg", "ico"];
    assert(v@.map_values(|s: &str| s@) =~= image_exts());
    v
}

fn video_list() -> (v: Vec<&'static str>)
    ensures v@.map_values(|s: &str| s@) == video_exts(),
{
    let v = vec!["mp4", "mov", "avi", "mkv", "flv", "wmv"];
    assert(v@.map_values(|s: &str| s@) =~= video_exts());
    v
}

fn audio_list() -> (v: Vec<&'static str>)
    ensures v@.map_values(|s: &str| s@) == audio_exts(),
{
    let v = vec!["mp3", "wav", "ogg", "flac", "m4a", "aac"];
    assert(v@.map_values(|s: &str| s@) =~= audio_exts());
    v
}

fn archive_list() -> (v: Vec<&'static str>)
    ensures v@.map_values(|s: &str| s@) == archive_exts(),
{
    let v = vec!["zip", "rar", "7z", "tar", "gz"];
    assert(v@.map_values(|s: &str| s@) =~= archive_exts());
    v
}

fn list_contains(v: &Vec<&'static str>, x: &str) -> (r: bool)
    ensures
        r == v@.map_values(|s: &str| s@).contains(x@),
{
    let ghost views = v@.map_values(|s: &str| s@);
    let mut i: usize = 0;
    while i < v.len()
        invariant
            views == v@.map_values(|s: &str| s@),
            i <= v@.len(),
            forall|j: int| 0 <= j < i ==> views[j] != x@,
        decreases v@.len() - i,
    {
        if str_eq(v[i], x) {
            assert(views[i as int] == x@);
            return true;
        }
        i = i + 1;
    }
    false
}

} // verus!

verus! {

/// The category of a file name by its extension (compared in lower case):
/// `doc`, `image`, `video`, `audio`, `archive`, or `other`.
pub fn determine_category(name: &str) -> (r: String)
    ensures
        r@ == category_of_ext(ext_after_dot(lowercase_of(name@))),
{
    let lower = to_lowercase(name);
    category_of_lower_extension(extension_after_dot(lower.as_str()))
}

/// The category of a lower-cased extension.
pub fn category_of_lower_extension(ext: &str) -> (r: String)
    ensures
        r@ == category_of_ext(ext@),
{
    if list_contains(&doc_list(), ext) { msg("doc") }
    else if list_contains(&image_list(), ext) { msg("image") }
    else if list_contains(&video_list(), ext) { msg("video") }
    else if list_contains(&audio_list(), ext) { msg("audio") }
    else if list_contains(&archive_list(), ext) { msg("archive") }
    else { msg("other") }
}

/// One name test: `LOWER(r.original_name) LIKE '%.<ext>'`.
pub open spec fn like_test(ext: Seq<char>) -> Seq<char> {
    "LOWER(r.original_name) LIKE '%."@ + ext + "'"@
}

/// The name tests of `exts` joined with ` OR `.
pub open spec fn like_tests(exts: Seq<Seq<char>>) -> Seq<char>
    decreases exts.len(),
{
    if exts.len() == 0 {
        Seq::empty()
    } else if exts.len() == 1 {
        like_test(exts[0])
    } else {
        like_tests(exts.drop_last()) + " OR "@ + like_test(exts.last())
    }
}

/// The SQL condition of a category filter: none for `all` or the empty
/// name, `NOT (...)` over every listed extension for `other`, `(...)` over the
/// category's extensions otherwise; an unknown name is an error.
pub open spec fn category_condition_spec(category: Seq<char>) -> Option<Option<Seq<char>>> {
    if category == "all"@ || category.len() == 0 {
        Some(None)
    } else if category == "other"@ {
        Some(Some("NOT ("@ + like_tests(all_exts()) + ")"@))
    } else {
        match category_exts(category) {
            Some(exts) => Some(Some("("@ + like_tests(exts) + ")"@)),
            None => None,
        }
    }
}

fn append_like_tests(out: &mut String, exts: &Vec<&'static str>)
    ensures
        final(out)@ == old(out)@ + like_tests(exts@.map_values(|s: &str| s@)),
{
    let ghost views = exts@.map_values(|s: &str| s@);
    let ghost start = out@;
    let mut i: usize = 0;
    proof { assert(views.subrange(0, 0) =~= Seq::<Seq<char>>::empty()); }
    while i < exts.len()
        invariant
            views == exts@.map_values(|s: &str| s@),
            start == old(out)@,
            i <= exts@.len(),
            out@ == start + like_tests(views.subrange(0, i as int)),
        decreases exts@.len() - i,
    {
        let ghost pre = views.subrange(0, i as int);
        let ghost cur = views.subrange(0, i + 1);
        proof {
            assert(cur.drop_last() =~= pre);
            assert(cur.last() == views[i as int]);
            assert(views[i as int] == exts@[i as int]@);
        }
        if i > 0 {
            out.append(" OR ");
        }
        out.append("LOWER(r.original_name) LIKE '%.");
        out.append(exts[i]);
        out.append("'");
        proof {
            if i == 0 {
                assert(cur =~= seq![views[0]]);
                assert(like_tests(pre) =~= Seq::<char>::empty());
            }
        }
        i = i + 1;
    }
    proof { assert(views.subrange(0, exts@.len() as int) =~= views); }
}

fn all_list() -> (v: Vec<&'static str>)
    ensures v@.map_values(|s: &str| s@) == all_exts(),
{
    let mut v = doc_list();
    let mut b = image_list();
    let mut c = video_list();
    let mut d = audio_list();
    let mut e = archive_list();
    let ghost (va, vb, vc, vd, ve) = (v@, b@, c@, d@, e@);
    v.append(&mut b);
    v.append(&mut c);
    v.append(&mut d);
    v.append(&mut e);
    proof {
        assert(v@ =~= va + vb + vc + vd + ve);
        assert(v@.map_values(|s: &str| s@) =~= all_exts());
    }
    v
}

/// The SQL condition of a category filter, built only from the fixed
/// extension table (user text never reaches the SQL).
pub fn category_condition(category: &str) -> (r: Result<Option<String>, ChatVaultError>)
    ensures
        match category_condition_spec(category@) {
            Some(None) => r matches Ok(None),
            Some(Some(c)) => r matches Ok(Some(s)) && s@ == c,
            None => r matches Err(e) && e is Internal,
        },
{
    if str_eq(category, "all") || category.unicode_len() == 0 {
        return Ok(None);
    }
    let other = str_eq(category, "other");
    let exts = if other {
        all_list()
    } else if str_eq(category, "doc") { doc_list() }
    else if str_eq(category, "image") { image_list() }
    else if str_eq(category, "video") { video_list() }
    else if str_eq(category, "audio") { audio_list() }
    else if str_eq(category, "archive") { archive_list() }
    else {
        return Err(ChatVaultError::Internal(msg("未知文件分类")));
    };
    let mut out = if other { msg("NOT (") } else { msg("(") };
    append_like_tests(&mut out, &exts);
    out.append(")");
    Ok(Some(out))
}

} // verus!
