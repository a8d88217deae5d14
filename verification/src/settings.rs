//! The settings window's page address.
use vstd::prelude::*;

verus! {

/// The page the settings window loads for the requested `tab`.
pub open spec fn settings_url_spec(tab: Option<Seq<char>>) -> Seq<char> {
    match tab {
        Some(t) => if t.len() > 0 {
            "settings.html?tab="@ + t
        } else {
            "settings.html"@
        },
        None => "settings.html"@,
    }
}

/// `settings.html`, with `?tab=<tab>` when a non-empty tab is requested.
pub fn settings_url_path(tab: Option<&str>) -> (r: String)
    ensures
        r@ == settings_url_spec(
            match tab {
                Some(t) => Some(t@),
                None => None,
            },
        ),
{
    match tab {
        Some(t) => {
            if t.is_empty() {
                "settings.html".to_owned()
            } else {
                let mut out: Vec<char> = Vec::new();
                crate::text::push_str(&mut out, "settings.html?tab=");
                crate::text::push_str(&mut out, t);
                crate::text::string_of(&out)
            }
        },
        None => "settings.html".to_owned(),
    }
}

/// The tab to switch an already open settings window to: the requested tab
/// when it is non-empty.
pub fn settings_tab_to_show(tab: Option<&str>) -> (r: Option<&str>)
    ensures
        match tab {
            Some(t) => if t@.len() > 0 {
                r == Some(t)
            } else {
                r is None
            },
            None => r is None,
        },
{
    match tab {
        Some(t) => if t.is_empty() {
            None
        } else {
            Some(t)
        },
        None => None,
    }
}

/// Law: a non-empty tab can be read back from the page address: the address
/// is `settings.html?tab=` followed by exactly that tab, so two different
/// tabs give two different addresses; without a tab, or with an empty one,
/// the address is plain `settings.html`.
pub proof fn lemma_settings_tab_read_back(t: Seq<char>, u: Seq<char>)
    ensures
        t.len() > 0 ==> settings_url_spec(Some(t)).take("settings.html?tab="@.len() as int)
            == "settings.html?tab="@,
        t.len() > 0 ==> settings_url_spec(Some(t)).skip("settings.html?tab="@.len() as int) == t,
        t.len() > 0 && u.len() > 0 && t != u ==> settings_url_spec(Some(t)) != settings_url_spec(
            Some(u),
        ),
        settings_url_spec(None) == "settings.html"@,
        settings_url_spec(Some(Seq::<char>::empty())) == "settings.html"@,
{
    let p = "settings.html?tab="@;
    if t.len() > 0 {
        assert((p + t).take(p.len() as int) == p);
        assert((p + t).skip(p.len() as int) == t);
    }
    if t.len() > 0 && u.len() > 0 && t != u {
        assert((p + t).skip(p.len() as int) == t);
        assert((p + u).skip(p.len() as int) == u);
    }
}

} // verus!
