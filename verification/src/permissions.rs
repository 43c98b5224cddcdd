//! Sensitive Android permissions: finding them in a manifest and flagging
//! those an SDK's category does not justify (scope creep).
use vstd::prelude::*;

use crate::text::{
    all_ascii, ascii_bytes, chars_of, contains_chars, contains_seq, decode_utf16_lossy,
    decode_utf8_lossy, lemma_filter_no_duplicates, lemma_utf16_lossy_extend, no_duplicates, occurs_at,
    replacement_char, str_eq, utf16_lossy,
};

verus! {

/// The permissions that count as sensitive, in the order they are reported.
pub open spec fn sensitive_permissions() -> Seq<Seq<char>> {
    seq![
        "android.permission.CAMERA"@,
        "android.permission.RECORD_AUDIO"@,
        "android.permission.READ_CONTACTS"@,
        "android.permission.WRITE_CONTACTS"@,
        "android.permission.READ_SMS"@,
        "android.permission.SEND_SMS"@,
        "android.permission.ACCESS_FINE_LOCATION"@,
        "android.permission.ACCESS_COARSE_LOCATION"@,
        "android.permission.READ_CALL_LOG"@,
        "android.permission.WRITE_CALL_LOG"@,
        "android.permission.READ_PHONE_STATE"@,
        "android.permission.SYSTEM_ALERT_WINDOW"@,
    ]
}

/// The sensitive permissions as string slices.
fn sensitive_permission_list() -> (v: Vec<&'static str>)
    ensures
        v@.map_values(|s: &str| s@) == sensitive_permissions(),
{
    let v: Vec<&'static str> = vec![
        "android.permission.CAMERA",
        "android.permission.RECORD_AUDIO",
        "android.permission.READ_CONTACTS",
        "android.permission.WRITE_CONTACTS",
        "android.permission.READ_SMS",
        "android.permission.SEND_SMS",
        "android.permission.ACCESS_FINE_LOCATION",
        "android.permission.ACCESS_COARSE_LOCATION",
        "android.permission.READ_CALL_LOG",
        "android.permission.WRITE_CALL_LOG",
        "android.permission.READ_PHONE_STATE",
        "android.permission.SYSTEM_ALERT_WINDOW",
    ];
    assert(v@.map_values(|s: &str| s@) =~= sensitive_permissions());
    v
}

/// The bytes read as little-endian UTF-16 code units, two bytes per unit; a
/// trailing odd byte is dropped.
pub open spec fn le_units(bytes: Seq<u8>) -> Seq<u16> {
    Seq::new(
        bytes.len() / 2,
        |k: int| (bytes[2 * k] as int + 256 * bytes[2 * k + 1] as int) as u16,
    )
}

/// The permission occurs in the manifest read as lossy UTF-8 text (for an
/// ASCII permission: its bytes occur in the manifest) or as lossy
/// little-endian UTF-16 text.
pub open spec fn mentioned_in(manifest: Seq<u8>, perm: Seq<char>) -> bool {
    contains_seq(manifest, ascii_bytes(perm)) || contains_seq(utf16_lossy(le_units(manifest)), perm)
}

/// The sensitive permissions that a manifest mentions, in list order.
pub open spec fn sensitive_permissions_in(manifest: Seq<u8>) -> Seq<Seq<char>> {
    sensitive_permissions().filter(|p: Seq<char>| mentioned_in(manifest, p))
}

/// The bytes as little-endian UTF-16 code units.
fn units_of(bytes: &[u8]) -> (u: Vec<u16>)
    ensures
        u@ == le_units(bytes@),
{
    let mut u: Vec<u16> = Vec::new();
    let len: usize = bytes.len();
    let n: usize = len / 2;
    let mut k: usize = 0;
    while k < n
        invariant
            len == bytes@.len(),
            n == len / 2,
            k <= n,
            u@ =~= le_units(bytes@).take(k as int),
        decreases n - k,
    {
        assert(2 * k + 1 < bytes@.len());
        let lo: u16 = bytes[2 * k] as u16;
        let hi: u16 = bytes[2 * k + 1] as u16;
        u.push(lo + 256 * hi);
        k = k + 1;
    }
    u
}

/// The sensitive permissions that the binary manifest mentions, read both as
/// UTF-8 and as UTF-16LE text (binary XML keeps its strings in either).
pub fn get_sensitive_permissions_in_app(manifest_bytes: &[u8]) -> (found: Vec<String>)
    ensures
        found.deep_view() == sensitive_permissions_in(manifest_bytes@),
{
    proof {
        lemma_sensitive_permissions_ascii();
    }
    let text8 = chars_of(decode_utf8_lossy(manifest_bytes).as_str());
    let units = units_of(manifest_bytes);
    let text16 = chars_of(decode_utf16_lossy(units.as_slice()).as_str());
    let perms = sensitive_permission_list();
    let ghost pred = |p: Seq<char>| mentioned_in(manifest_bytes@, p);
    let ghost all = sensitive_permissions();
    let mut found: Vec<String> = Vec::new();
    let mut i: usize = 0;
    while i < perms.len()
        invariant
            i <= perms@.len(),
            perms@.map_values(|s: &str| s@) == all,
            all == sensitive_permissions(),
            forall|p: Seq<char>|
                all_ascii(p) ==> (#[trigger] contains_seq(text8@, p) <==> contains_seq(
                    manifest_bytes@,
                    ascii_bytes(p),
                )),
            forall|k: int| 0 <= k < all.len() ==> all_ascii(#[trigger] all[k]),
            text16@ == utf16_lossy(le_units(manifest_bytes@)),
            pred == (|p: Seq<char>| mentioned_in(manifest_bytes@, p)),
            found.deep_view() =~= all.take(i as int).filter(pred),
        decreases perms@.len() - i,
    {
        proof {
            reveal_with_fuel(Seq::<_>::filter, 1);
            assert(all.take(i + 1).drop_last() =~= all.take(i as int));
            assert(all[i as int] == perms@[i as int]@);
        }
        let p = chars_of(perms[i]);
        assert(all_ascii(all[i as int]));
        if contains_chars(&text8, &p) || contains_chars(&text16, &p) {
            let s = String::from_str(perms[i]);
            let ghost prev = found.deep_view();
            found.push(s);
            assert(found.deep_view() =~= prev.push(all[i as int]));
        }
        i = i + 1;
    }
    assert(all.take(all.len() as int) =~= all);
    found
}

/// The sensitive permissions that an SDK category justifies: location for
/// advertising, location and phone state for platform SDKs, none otherwise.
pub open spec fn justified_for(category: Seq<char>) -> Seq<Seq<char>> {
    if category == "Ads"@ {
        seq!["android.permission.ACCESS_COARSE_LOCATION"@, "android.permission.ACCESS_FINE_LOCATION"@]
    } else if category == "Platform"@ {
        seq![
            "android.permission.ACCESS_COARSE_LOCATION"@,
            "android.permission.ACCESS_FINE_LOCATION"@,
            "android.permission.READ_PHONE_STATE"@,
        ]
    } else {
        Seq::empty()
    }
}

/// The message that flags `perm` for an SDK of `category`.
pub open spec fn creep_message(perm: Seq<char>, category: Seq<char>) -> Seq<char> {
    "App requests "@ + perm + " which is unjustified for an SDK in '"@ + category + "' category"@
}

/// One message for each app permission, in order, that the category does not justify.
pub open spec fn scope_creep_flags(category: Seq<char>, perms: Seq<Seq<char>>) -> Seq<Seq<char>> {
    perms.filter(|p: Seq<char>| !justified_for(category).contains(p)).map_values(
        |p: Seq<char>| creep_message(p, category),
    )
}

/// The permissions justified for a category, as string slices.
fn justified_list(category: &str) -> (v: Vec<&'static str>)
    ensures
        v@.map_values(|s: &str| s@) == justified_for(category@),
{
    let v: Vec<&'static str> = if str_eq(category, "Ads") {
        vec!["android.permission.ACCESS_COARSE_LOCATION", "android.permission.ACCESS_FINE_LOCATION"]
    } else if str_eq(category, "Platform") {
        vec![
            "android.permission.ACCESS_COARSE_LOCATION",
            "android.permission.ACCESS_FINE_LOCATION",
            "android.permission.READ_PHONE_STATE",
        ]
    } else {
        Vec::new()
    };
    assert(v@.map_values(|s: &str| s@) =~= justified_for(category@));
    v
}

/// Whether some slice of `list` has the text of `s`.
fn list_contains(list: &Vec<&'static str>, s: &str) -> (b: bool)
    ensures
        b == list@.map_values(|x: &str| x@).contains(s@),
{
    let ghost views = list@.map_values(|x: &str| x@);
    let mut i: usize = 0;
    while i < list.len()
        invariant
            i <= list@.len(),
            views == list@.map_values(|x: &str| x@),
            forall|k: int| 0 <= k < i ==> views[k] != s@,
        decreases list@.len() - i,
    {
        if str_eq(list[i], s) {
            assert(views[i as int] == s@);
            return true;
        }
        i = i + 1;
    }
    false
}

/// The scope-creep message for one permission.
fn creep_message_for(perm: &str, category: &str) -> (m: String)
    ensures
        m@ == creep_message(perm@, category@),
{
    let mut m = String::from_str("App requests ");
    m.append(perm);
    m.append(" which is unjustified for an SDK in '");
    m.append(category);
    m.append("' category");
    m
}

/// Flags every app permission that an SDK of the given category does not
/// justify, with a message naming the permission and the category. The app's
/// permissions form a set: none occurs twice, and neither does a flag.
pub fn check_scope_creep(category: &str, app_permissions: &Vec<String>) -> (flags: Vec<String>)
    requires
        no_duplicates(app_permissions.deep_view()),
    ensures
        flags.deep_view() == scope_creep_flags(category@, app_permissions.deep_view()),
        no_duplicates(flags.deep_view()),
{
    proof {
        law_flags_are_distinct(category@, app_permissions.deep_view());
    }
    let allowed = justified_list(category);
    let ghost perms = app_permissions.deep_view();
    let ghost pred = |p: Seq<char>| !justified_for(category@).contains(p);
    let ghost msg = |p: Seq<char>| creep_message(p, category@);
    let mut flags: Vec<String> = Vec::new();
    let mut i: usize = 0;
    while i < app_permissions.len()
        invariant
            i <= perms.len(),
            perms == app_permissions.deep_view(),
            allowed@.map_values(|s: &str| s@) == justified_for(category@),
            pred == (|p: Seq<char>| !justified_for(category@).contains(p)),
            msg == (|p: Seq<char>| creep_message(p, category@)),
            flags.deep_view() =~= perms.take(i as int).filter(pred).map_values(msg),
        decreases perms.len() - i,
    {
        proof {
            reveal_with_fuel(Seq::<_>::filter, 1);
            assert(perms.take(i + 1).drop_last() =~= perms.take(i as int));
        }
        let ghost x = perms[i as int];
        let ghost before = perms.take(i as int).filter(pred);
        if !list_contains(&allowed, app_permissions[i].as_str()) {
            assert(pred(x));
            assert(perms.take(i + 1).filter(pred) == before.push(x));
            let m = creep_message_for(app_permissions[i].as_str(), category);
            let ghost prev = flags.deep_view();
            flags.push(m);
            assert(before.push(x).map_values(msg) =~= before.map_values(msg).push(msg(x)));
            assert(flags.deep_view() =~= prev.push(msg(x)));
        } else {
            assert(!pred(x));
            assert(perms.take(i + 1).filter(pred) == before);
        }
        i = i + 1;
    }
    assert(perms.take(perms.len() as int) =~= perms);
    flags
}


/// Every permission reported for a manifest is a sensitive permission that
/// the manifest mentions.
pub proof fn law_found_permissions_are_sensitive(manifest: Seq<u8>)
    ensures
        forall|p: Seq<char>| #[trigger]
            sensitive_permissions_in(manifest).contains(p) ==> sensitive_permissions().contains(p)
                && mentioned_in(manifest, p),
{
    let pred = |p: Seq<char>| mentioned_in(manifest, p);
    let f = sensitive_permissions().filter(pred);
    assert forall|p: Seq<char>| #[trigger] f.contains(p) implies sensitive_permissions().contains(p)
        && mentioned_in(manifest, p) by {
        sensitive_permissions().lemma_filter_contains_rev(pred, p);
        let k = choose|k: int| 0 <= k < f.len() && f[k] == p;
        sensitive_permissions().lemma_filter_pred(pred, k);
    }
}

/// The message names its permission: the permission is the text between
/// the fixed prefix and the fixed middle.
proof fn lemma_creep_message_names_permission(p: Seq<char>, category: Seq<char>)
    ensures
        creep_message(p, category).subrange(13, 13 + p.len() as int) == p,
        creep_message(p, category).len() == p.len() + category.len() + 60,
{
    reveal_strlit("App requests ");
    reveal_strlit(" which is unjustified for an SDK in '");
    reveal_strlit("' category");
    let m = creep_message(p, category);
    assert(m.subrange(13, 13 + p.len() as int) =~= p);
}

/// Distinct permissions give distinct flags.
pub proof fn law_flags_are_distinct(category: Seq<char>, perms: Seq<Seq<char>>)
    requires
        no_duplicates(perms),
    ensures
        no_duplicates(scope_creep_flags(category, perms)),
{
    let pred = |p: Seq<char>| !justified_for(category).contains(p);
    let f = perms.filter(pred);
    lemma_filter_no_duplicates(perms, pred);
    let flags = scope_creep_flags(category, perms);
    assert forall|i: int, j: int| 0 <= i < flags.len() && 0 <= j < flags.len() && i != j implies flags[i]
        != flags[j] by {
        lemma_creep_message_names_permission(f[i], category);
        lemma_creep_message_names_permission(f[j], category);
        if flags[i] == flags[j] {
            assert(f[i].len() == f[j].len());
            assert(f[i] == f[j]);
        }
    }
}

/// Requesting more permissions never removes a flag: every flag raised for
/// some permissions is raised again for any permissions that include them.
pub proof fn law_more_permissions_keep_flags(
    category: Seq<char>,
    perms: Seq<Seq<char>>,
    more: Seq<Seq<char>>,
)
    requires
        forall|x: Seq<char>| perms.contains(x) ==> #[trigger] more.contains(x),
    ensures
        forall|i: int| 0 <= i < scope_creep_flags(category, perms).len() ==> scope_creep_flags(
            category,
            more,
        ).contains(#[trigger] scope_creep_flags(category, perms)[i]),
{
    let pred = |p: Seq<char>| !justified_for(category).contains(p);
    let f = perms.filter(pred);
    let g = more.filter(pred);
    assert forall|i: int| 0 <= i < scope_creep_flags(category, perms).len() implies scope_creep_flags(
        category,
        more,
    ).contains(#[trigger] scope_creep_flags(category, perms)[i]) by {
        let x = f[i];
        assert(f.contains(x));
        perms.lemma_filter_contains_rev(pred, x);
        perms.lemma_filter_pred(pred, i);
        assert(more.contains(x));
        let k = choose|k: int| 0 <= k < more.len() && more[k] == x;
        more.lemma_filter_contains(pred, k);
        assert(g.contains(x));
        let j = choose|j: int| 0 <= j < g.len() && g[j] == x;
        assert(scope_creep_flags(category, more)[j] == creep_message(x, category));
    }
}

/// A category other than `Ads` and `Platform` justifies no sensitive
/// permission: every app permission is flagged, in order.
pub proof fn law_other_categories_flag_every_permission(category: Seq<char>, perms: Seq<Seq<char>>)
    requires
        category != "Ads"@,
        category != "Platform"@,
    ensures
        scope_creep_flags(category, perms) == perms.map_values(
            |p: Seq<char>| creep_message(p, category),
        ),
    decreases perms.len(),
{
    let pred = |p: Seq<char>| !justified_for(category).contains(p);
    let m = |p: Seq<char>| creep_message(p, category);
    reveal_with_fuel(Seq::<_>::filter, 1);
    if perms.len() > 0 {
        let d = perms.drop_last();
        let l = perms.last();
        law_other_categories_flag_every_permission(category, d);
        assert(pred(l));
        let f = d.filter(pred);
        assert(perms.filter(pred) == f.push(l));
        assert(f.push(l).map_values(m) =~= f.map_values(m).push(m(l)));
        assert(perms.map_values(m) =~= d.map_values(m).push(m(l)));
    } else {
        assert(scope_creep_flags(category, perms) =~= perms.map_values(m));
    }
}

/// `flag` is the message for some app permission that the category does
/// not justify.
pub open spec fn flag_explained(category: Seq<char>, perms: Seq<Seq<char>>, flag: Seq<char>) -> bool {
    exists|p: Seq<char>| #![trigger perms.contains(p)]
        perms.contains(p) && !justified_for(category).contains(p) && flag == creep_message(p, category)
}

/// Each flag is the message for an app permission that the category does
/// not justify.
pub proof fn law_flags_name_unjustified_permissions(category: Seq<char>, perms: Seq<Seq<char>>)
    ensures
        forall|i: int| 0 <= i < scope_creep_flags(category, perms).len() ==> flag_explained(
            category,
            perms,
            #[trigger] scope_creep_flags(category, perms)[i],
        ),
{
    let pred = |p: Seq<char>| !justified_for(category).contains(p);
    let f = perms.filter(pred);
    assert forall|i: int| 0 <= i < scope_creep_flags(category, perms).len() implies flag_explained(
        category,
        perms,
        #[trigger] scope_creep_flags(category, perms)[i],
    ) by {
        let p = f[i];
        assert(f.contains(p));
        perms.lemma_filter_contains_rev(pred, p);
        perms.lemma_filter_pred(pred, i);
        assert(scope_creep_flags(category, perms)[i] == creep_message(p, category));
        assert(perms.contains(p));
    }
}


/// Every sensitive permission is ASCII text.
proof fn lemma_sensitive_permissions_ascii()
    ensures
        forall|k: int| 0 <= k < sensitive_permissions().len() ==> all_ascii(
            #[trigger] sensitive_permissions()[k],
        ),
{
    reveal_strlit("android.permission.CAMERA");
    reveal_strlit("android.permission.RECORD_AUDIO");
    reveal_strlit("android.permission.READ_CONTACTS");
    reveal_strlit("android.permission.WRITE_CONTACTS");
    reveal_strlit("android.permission.READ_SMS");
    reveal_strlit("android.permission.SEND_SMS");
    reveal_strlit("android.permission.ACCESS_FINE_LOCATION");
    reveal_strlit("android.permission.ACCESS_COARSE_LOCATION");
    reveal_strlit("android.permission.READ_CALL_LOG");
    reveal_strlit("android.permission.WRITE_CALL_LOG");
    reveal_strlit("android.permission.READ_PHONE_STATE");
    reveal_strlit("android.permission.SYSTEM_ALERT_WINDOW");
    assert(all_ascii("android.permission.CAMERA"@));
    assert(all_ascii("android.permission.RECORD_AUDIO"@));
    assert(all_ascii("android.permission.READ_CONTACTS"@));
    assert(all_ascii("android.permission.WRITE_CONTACTS"@));
    assert(all_ascii("android.permission.READ_SMS"@));
    assert(all_ascii("android.permission.SEND_SMS"@));
    assert(all_ascii("android.permission.ACCESS_FINE_LOCATION"@));
    assert(all_ascii("android.permission.ACCESS_COARSE_LOCATION"@));
    assert(all_ascii("android.permission.READ_CALL_LOG"@));
    assert(all_ascii("android.permission.WRITE_CALL_LOG"@));
    assert(all_ascii("android.permission.READ_PHONE_STATE"@));
    assert(all_ascii("android.permission.SYSTEM_ALERT_WINDOW"@));
    let s = sensitive_permissions();
    assert forall|k: int| 0 <= k < s.len() implies all_ascii(#[trigger] s[k]) by {
        assert(k == 0 || k == 1 || k == 2 || k == 3 || k == 4 || k == 5 || k == 6 || k == 7 || k
            == 8 || k == 9 || k == 10 || k == 11);
    }
}

/// The little-endian units of a prefix are a prefix of the units of the whole.
proof fn lemma_le_units_prefix(a: Seq<u8>, c: Seq<u8>)
    ensures
        le_units(a + c) =~= le_units(a) + le_units(a + c).skip(le_units(a).len() as int),
{
    let ua = le_units(a);
    let ub = le_units(a + c);
    assert forall|k: int| 0 <= k < ua.len() implies ub[k] == ua[k] by {
        assert((a + c)[2 * k] == a[2 * k]);
        assert((a + c)[2 * k + 1] == a[2 * k + 1]);
    }
}

/// An occurrence of an ASCII text in the lossy UTF-16 reading of some units
/// survives appending units.
proof fn lemma_ascii_in_utf16_survives(u: Seq<u16>, w: Seq<u16>, p: Seq<char>)
    requires
        all_ascii(p),
        contains_seq(utf16_lossy(u), p),
    ensures
        contains_seq(utf16_lossy(u + w), p),
{
    let d = utf16_lossy(u);
    let e = utf16_lossy(u + w);
    lemma_utf16_lossy_extend(u, w);
    let i = choose|i: int| occurs_at(d, p, i);
    if p.len() == 0 {
        assert(e.subrange(0, 0) =~= p);
        assert(occurs_at(e, p, 0));
    } else if d.len() <= e.len() && e.take(d.len() as int) == d {
        assert(e.subrange(i, i + p.len()) =~= d.subrange(i, i + p.len()));
        assert(occurs_at(e, p, i));
    } else {
        if i + p.len() == d.len() {
            assert(p[p.len() - 1] == d.last());
            assert((replacement_char() as u32) >= 128);
            assert(false);
        }
        assert forall|k: int| i <= k < i + p.len() implies e[k] == d[k] by {
            assert(e.take(d.len() - 1)[k] == e[k]);
            assert(d.drop_last()[k] == d[k]);
        }
        assert(e.subrange(i, i + p.len()) =~= d.subrange(i, i + p.len()));
        assert(occurs_at(e, p, i));
    }
}

/// Appending bytes to a manifest never hides a permission already found.
pub proof fn law_appending_keeps_found_permissions(a: Seq<u8>, c: Seq<u8>)
    ensures
        forall|p: Seq<char>| #[trigger]
            sensitive_permissions_in(a).contains(p) ==> sensitive_permissions_in(a + c).contains(p),
{
    let pa = |p: Seq<char>| mentioned_in(a, p);
    let pb = |p: Seq<char>| mentioned_in(a + c, p);
    lemma_sensitive_permissions_ascii();
    assert forall|p: Seq<char>| #[trigger] sensitive_permissions_in(a).contains(p) implies sensitive_permissions_in(
        a + c,
    ).contains(p) by {
        let f = sensitive_permissions().filter(pa);
        sensitive_permissions().lemma_filter_contains_rev(pa, p);
        let k = choose|k: int| 0 <= k < f.len() && f[k] == p;
        sensitive_permissions().lemma_filter_pred(pa, k);
        let j = choose|j: int| 0 <= j < sensitive_permissions().len() && sensitive_permissions()[j] == p;
        assert(all_ascii(sensitive_permissions()[j]));
        if contains_seq(a, ascii_bytes(p)) {
            let i = choose|i: int| occurs_at(a, ascii_bytes(p), i);
            assert((a + c).subrange(i, i + ascii_bytes(p).len()) =~= a.subrange(
                i,
                i + ascii_bytes(p).len(),
            ));
            assert(occurs_at(a + c, ascii_bytes(p), i));
        } else {
            lemma_le_units_prefix(a, c);
            let ua = le_units(a);
            let w = le_units(a + c).skip(ua.len() as int);
            lemma_ascii_in_utf16_survives(ua, w, p);
            assert(le_units(a + c) == ua + w);
        }
        assert(pb(p));
        sensitive_permissions().lemma_filter_contains(pb, j);
    }
}

/// No sensitive permission is listed twice.
proof fn lemma_sensitive_permissions_distinct()
    ensures
        no_duplicates(sensitive_permissions()),
{
    reveal_strlit("android.permission.CAMERA");
    reveal_strlit("android.permission.RECORD_AUDIO");
    reveal_strlit("android.permission.READ_CONTACTS");
    reveal_strlit("android.permission.WRITE_CONTACTS");
    reveal_strlit("android.permission.READ_SMS");
    reveal_strlit("android.permission.SEND_SMS");
    reveal_strlit("android.permission.ACCESS_FINE_LOCATION");
    reveal_strlit("android.permission.ACCESS_COARSE_LOCATION");
    reveal_strlit("android.permission.READ_CALL_LOG");
    reveal_strlit("android.permission.WRITE_CALL_LOG");
    reveal_strlit("android.permission.READ_PHONE_STATE");
    reveal_strlit("android.permission.SYSTEM_ALERT_WINDOW");
    let s = sensitive_permissions();
    assert(s[0].len() == 25);
    assert(s[1].len() == 31);
    assert(s[2].len() == 32);
    assert(s[3].len() == 33);
    assert(s[4].len() == 27);
    assert(s[5].len() == 27);
    assert(s[6].len() == 39);
    assert(s[7].len() == 41);
    assert(s[8].len() == 32);
    assert(s[9].len() == 33);
    assert(s[10].len() == 35);
    assert(s[11].len() == 38);
    assert(s[4][19] != s[5][19]);
    assert(s[2][25] != s[8][25]);
    assert(s[3][26] != s[9][26]);
    assert forall|i: int, j: int| 0 <= i < s.len() && 0 <= j < s.len() && i != j implies s[i]
        != s[j] by {
        assert(i == 0 || i == 1 || i == 2 || i == 3 || i == 4 || i == 5 || i == 6 || i == 7 || i
            == 8 || i == 9 || i == 10 || i == 11);
        assert(j == 0 || j == 1 || j == 2 || j == 3 || j == 4 || j == 5 || j == 6 || j == 7 || j
            == 8 || j == 9 || j == 10 || j == 11);
    }
}

/// The permissions found in a manifest are reported once each.
pub proof fn law_found_permissions_are_distinct(manifest: Seq<u8>)
    ensures
        no_duplicates(sensitive_permissions_in(manifest)),
{
    lemma_sensitive_permissions_distinct();
    lemma_filter_no_duplicates(sensitive_permissions(), |p: Seq<char>| mentioned_in(manifest, p));
}

/// The permission is one of the twelve that count as sensitive: camera,
/// audio recording, contacts (read, write), SMS (read, send), location
/// (fine, coarse), call log (read, write), phone state and overlay windows.
pub open spec fn is_sensitive_permission(p: Seq<char>) -> bool {
    ||| p == "android.permission.CAMERA"@
    ||| p == "android.permission.RECORD_AUDIO"@
    ||| p == "android.permission.READ_CONTACTS"@
    ||| p == "android.permission.WRITE_CONTACTS"@
    ||| p == "android.permission.READ_SMS"@
    ||| p == "android.permission.SEND_SMS"@
    ||| p == "android.permission.ACCESS_FINE_LOCATION"@
    ||| p == "android.permission.ACCESS_COARSE_LOCATION"@
    ||| p == "android.permission.READ_CALL_LOG"@
    ||| p == "android.permission.WRITE_CALL_LOG"@
    ||| p == "android.permission.READ_PHONE_STATE"@
    ||| p == "android.permission.SYSTEM_ALERT_WINDOW"@
}

/// A manifest whose bytes hold the text of one of the twelve sensitive
/// permissions (as UTF-8 or as UTF-16LE) reports that permission; and every
/// permission reported is one of the twelve.
pub proof fn law_reported_permissions_are_exactly_the_sensitive_ones(manifest: Seq<u8>, p: Seq<char>)
    ensures
        is_sensitive_permission(p) && contains_seq(manifest, ascii_bytes(p))
            ==> sensitive_permissions_in(manifest).contains(p),
        is_sensitive_permission(p) && contains_seq(utf16_lossy(le_units(manifest)), p)
            ==> sensitive_permissions_in(manifest).contains(p),
        sensitive_permissions_in(manifest).contains(p) ==> is_sensitive_permission(p),
{
    let s = sensitive_permissions();
    let pred = |q: Seq<char>| mentioned_in(manifest, q);
    law_found_permissions_are_sensitive(manifest);
    assert forall|k: int| 0 <= k < s.len() implies is_sensitive_permission(#[trigger] s[k]) by {
        assert(k == 0 || k == 1 || k == 2 || k == 3 || k == 4 || k == 5 || k == 6 || k == 7 || k
            == 8 || k == 9 || k == 10 || k == 11);
    }
    if sensitive_permissions_in(manifest).contains(p) {
        let k = choose|k: int| 0 <= k < s.len() && s[k] == p;
        assert(is_sensitive_permission(s[k]));
    }
    if is_sensitive_permission(p) && mentioned_in(manifest, p) {
        let k: int = if p == "android.permission.CAMERA"@ {
            0
        } else if p == "android.permission.RECORD_AUDIO"@ {
            1
        } else if p == "android.permission.READ_CONTACTS"@ {
            2
        } else if p == "android.permission.WRITE_CONTACTS"@ {
            3
        } else if p == "android.permission.READ_SMS"@ {
            4
        } else if p == "android.permission.SEND_SMS"@ {
            5
        } else if p == "android.permission.ACCESS_FINE_LOCATION"@ {
            6
        } else if p == "android.permission.ACCESS_COARSE_LOCATION"@ {
            7
        } else if p == "android.permission.READ_CALL_LOG"@ {
            8
        } else if p == "android.permission.WRITE_CALL_LOG"@ {
            9
        } else if p == "android.permission.READ_PHONE_STATE"@ {
            10
        } else {
            11
        };
        assert(s[k] == p);
        s.lemma_filter_contains(pred, k);
    }
}

/// A permission is flagged for an SDK of a category exactly when the app
/// requests it and the category does not justify it.
proof fn lemma_flagged_iff(category: Seq<char>, perms: Seq<Seq<char>>, x: Seq<char>)
    ensures
        scope_creep_flags(category, perms).contains(creep_message(x, category)) <==> perms.contains(x)
            && !justified_for(category).contains(x),
{
    let pred = |p: Seq<char>| !justified_for(category).contains(p);
    let f = perms.filter(pred);
    let flags = scope_creep_flags(category, perms);
    if flags.contains(creep_message(x, category)) {
        let i = choose|i: int| 0 <= i < flags.len() && flags[i] == creep_message(x, category);
        assert(flags[i] == creep_message(f[i], category));
        lemma_creep_message_names_permission(f[i], category);
        lemma_creep_message_names_permission(x, category);
        assert(f[i].len() == x.len());
        assert(f[i] == x);
        perms.lemma_filter_pred(pred, i);
        assert(f.contains(x));
        perms.lemma_filter_contains_rev(pred, x);
    }
    if perms.contains(x) && !justified_for(category).contains(x) {
        let k = choose|k: int| 0 <= k < perms.len() && perms[k] == x;
        perms.lemma_filter_contains(pred, k);
        let j = choose|j: int| 0 <= j < f.len() && f[j] == x;
        assert(flags[j] == creep_message(x, category));
    }
}

/// Platform SDKs may use coarse and fine location and the phone state, and
/// advertising SDKs both kinds of location: such a permission is never
/// flagged for them. Any other permission the app requests is flagged.
pub proof fn law_platform_and_ads_justifications(perms: Seq<Seq<char>>, x: Seq<char>)
    ensures
        x == "android.permission.ACCESS_COARSE_LOCATION"@ || x == "android.permission.ACCESS_FINE_LOCATION"@
            || x == "android.permission.READ_PHONE_STATE"@ ==> !scope_creep_flags(
            "Platform"@,
            perms,
        ).contains(creep_message(x, "Platform"@)),
        x == "android.permission.ACCESS_COARSE_LOCATION"@ || x == "android.permission.ACCESS_FINE_LOCATION"@
            ==> !scope_creep_flags("Ads"@, perms).contains(creep_message(x, "Ads"@)),
        perms.contains(x) && x != "android.permission.ACCESS_COARSE_LOCATION"@ && x
            != "android.permission.ACCESS_FINE_LOCATION"@ && x != "android.permission.READ_PHONE_STATE"@
            ==> scope_creep_flags("Platform"@, perms).contains(creep_message(x, "Platform"@)),
        perms.contains(x) && x != "android.permission.ACCESS_COARSE_LOCATION"@ && x
            != "android.permission.ACCESS_FINE_LOCATION"@ ==> scope_creep_flags("Ads"@, perms).contains(
            creep_message(x, "Ads"@),
        ),
{
    reveal_strlit("Platform");
    reveal_strlit("Ads");
    assert("Platform"@.len() != "Ads"@.len());
    let jp = justified_for("Platform"@);
    let ja = justified_for("Ads"@);
    assert(jp == seq![
        "android.permission.ACCESS_COARSE_LOCATION"@,
        "android.permission.ACCESS_FINE_LOCATION"@,
        "android.permission.READ_PHONE_STATE"@,
    ]);
    assert(ja == seq![
        "android.permission.ACCESS_COARSE_LOCATION"@,
        "android.permission.ACCESS_FINE_LOCATION"@,
    ]);
    lemma_flagged_iff("Platform"@, perms, x);
    lemma_flagged_iff("Ads"@, perms, x);
    if x == "android.permission.ACCESS_COARSE_LOCATION"@ {
        assert(jp[0] == x && ja[0] == x);
    }
    if x == "android.permission.ACCESS_FINE_LOCATION"@ {
        assert(jp[1] == x && ja[1] == x);
    }
    if x == "android.permission.READ_PHONE_STATE"@ {
        assert(jp[2] == x);
    }
    if jp.contains(x) {
        let k = choose|k: int| 0 <= k < jp.len() && jp[k] == x;
        assert(k == 0 || k == 1 || k == 2);
    }
    if ja.contains(x) {
        let k = choose|k: int| 0 <= k < ja.len() && ja[k] == x;
        assert(k == 0 || k == 1);
    }
}

} // verus!
