//! The packet data contexts of the connection manager: which one carries the
//! internet connection, the APN list shown to clients, and the property
//! writes of an APN change.

use vstd::prelude::*;
use vstd::string::*;
use crate::location::{lookup_exec, prop_lookup, prop_view, props_view, PropValue, PropView};
use crate::loader::same_chars;
use crate::models::{ApnContext, SetApnRequest};
use crate::text::{chars_of, chars_of_string};

verus! {

/// A context as the connection manager lists it: its object path and properties.
pub struct ContextEntry {
    pub path: String,
    pub props: Vec<(String, PropValue)>,
}

/// Named property values as views.
pub type PropsView = Seq<(Seq<char>, PropView)>;

/// The (path, properties) views of listed contexts.
pub open spec fn entries_view(v: Seq<ContextEntry>) -> Seq<(Seq<char>, PropsView)> {
    v.map_values(|e: ContextEntry| (e.path@, props_view(e.props@)))
}

/// The text of a property, when it is a text.
pub open spec fn text_of(ps: PropsView, key: Seq<char>) -> Option<Seq<char>> {
    match prop_lookup(ps, key) {
        Some(PropView::Str(s)) => Some(s),
        _ => None,
    }
}

/// The text of a property, or `d`.
pub open spec fn text_or(ps: PropsView, key: Seq<char>, d: Seq<char>) -> Seq<char> {
    match text_of(ps, key) {
        Some(s) => s,
        None => d,
    }
}

/// The boolean of a property, or `false`.
pub open spec fn flag_or_false(ps: PropsView, key: Seq<char>) -> bool {
    match prop_lookup(ps, key) {
        Some(PropView::Bool(b)) => b,
        _ => false,
    }
}

/// A context of type `internet`.
pub open spec fn is_internet(ps: PropsView) -> bool {
    text_or(ps, "Type"@, ""@) == "internet"@
}

/// A context with an access point name set.
pub open spec fn has_apn(ps: PropsView) -> bool {
    text_or(ps, "AccessPointName"@, ""@).len() > 0
}

/// The path of the first internet context (with an APN set, when `with_apn`).
pub open spec fn first_internet(cs: Seq<(Seq<char>, PropsView)>, with_apn: bool) -> Option<Seq<char>>
    decreases cs.len(),
{
    if cs.len() == 0 {
        None
    } else if is_internet(cs[0].1) && (!with_apn || has_apn(cs[0].1)) {
        Some(cs[0].0)
    } else {
        first_internet(cs.drop_first(), with_apn)
    }
}

/// The context that carries the internet connection: the first internet
/// context with an APN set, else the first internet context, else
/// `/ril_0/context2`.
pub open spec fn internet_context_path(cs: Seq<(Seq<char>, PropsView)>) -> Seq<char> {
    match first_internet(cs, true) {
        Some(p) => p,
        None => match first_internet(cs, false) {
            Some(p) => p,
            None => "/ril_0/context2"@,
        },
    }
}

fn text_exec<'a>(props: &'a Vec<(String, PropValue)>, key: &str) -> (r: Option<&'a String>)
    ensures
        match text_of(props_view(props@), key@) {
            Some(s) => r matches Some(x) && x@ == s,
            None => r is None,
        },
{
    match lookup_exec(props, key) {
        Some(PropValue::Str(s)) => Some(s),
        _ => None,
    }
}

fn text_or_exec(props: &Vec<(String, PropValue)>, key: &str, d: &str) -> (r: String)
    ensures
        r@ == text_or(props_view(props@), key@, d@),
{
    match text_exec(props, key) {
        Some(s) => s.clone(),
        None => d.to_owned(),
    }
}

fn flag_exec(props: &Vec<(String, PropValue)>, key: &str) -> (r: bool)
    ensures
        r == flag_or_false(props_view(props@), key@),
{
    match lookup_exec(props, key) {
        Some(PropValue::Bool(b)) => *b,
        _ => false,
    }
}

fn is_internet_exec(props: &Vec<(String, PropValue)>) -> (r: bool)
    ensures
        r == is_internet(props_view(props@)),
{
    let t = text_or_exec(props, "Type", "");
    let tv = chars_of_string(&t);
    let want = chars_of("internet");
    same_chars(tv.as_slice(), want.as_slice())
}

fn has_apn_exec(props: &Vec<(String, PropValue)>) -> (r: bool)
    ensures
        r == has_apn(props_view(props@)),
{
    let a = text_or_exec(props, "AccessPointName", "");
    a.unicode_len() > 0
}

fn first_internet_exec(contexts: &Vec<ContextEntry>, with_apn: bool) -> (r: Option<String>)
    ensures
        match first_internet(entries_view(contexts@), with_apn) {
            Some(p) => r matches Some(x) && x@ == p,
            None => r is None,
        },
{
    let ghost all = entries_view(contexts@);
    let mut i: usize = 0;
    assert(all.subrange(0, all.len() as int) =~= all);
    while i < contexts.len()
        invariant
            i <= contexts@.len() == all.len(),
            all == entries_view(contexts@),
            first_internet(all, with_apn) == first_internet(all.subrange(i as int, all.len() as int), with_apn),
        decreases contexts@.len() - i,
    {
        let ghost rest = all.subrange(i as int, all.len() as int);
        assert(rest[0] == (contexts@[i as int].path@, props_view(contexts@[i as int].props@)));
        assert(rest.drop_first() =~= all.subrange(i + 1, all.len() as int));
        let e = &contexts[i];
        if is_internet_exec(&e.props) && (!with_apn || has_apn_exec(&e.props)) {
            return Some(e.path.clone());
        }
        i = i + 1;
    }
    None
}

/// The path of the context that carries the internet connection (see
/// `internet_context_path`).
pub fn find_internet_context(contexts: &Vec<ContextEntry>) -> (r: String)
    ensures
        r@ == internet_context_path(entries_view(contexts@)),
{
    match first_internet_exec(contexts, true) {
        Some(p) => p,
        None => match first_internet_exec(contexts, false) {
            Some(p) => p,
            None => "/ril_0/context2".to_owned(),
        },
    }
}

/// The texts of an APN entry.
pub ghost struct ApnView {
    pub path: Seq<char>,
    pub name: Seq<char>,
    pub active: bool,
    pub apn: Seq<char>,
    pub protocol: Seq<char>,
    pub username: Seq<char>,
    pub password: Seq<char>,
    pub auth_method: Seq<char>,
    pub context_type: Seq<char>,
}

/// The view of an APN entry.
pub open spec fn apn_view(c: ApnContext) -> ApnView {
    ApnView {
        path: c.path@,
        name: c.name@,
        active: c.active,
        apn: c.apn@,
        protocol: c.protocol@,
        username: c.username@,
        password: c.password@,
        auth_method: c.auth_method@,
        context_type: c.context_type@,
    }
}

/// The APN entry of a context: name `Internet`, protocol `ip` and
/// authentication `chap` when not set, inactive and empty texts otherwise.
pub open spec fn apn_of(path: Seq<char>, ps: PropsView) -> ApnView {
    ApnView {
        path,
        name: text_or(ps, "Name"@, "Internet"@),
        active: flag_or_false(ps, "Active"@),
        apn: text_or(ps, "AccessPointName"@, ""@),
        protocol: text_or(ps, "Protocol"@, "ip"@),
        username: text_or(ps, "Username"@, ""@),
        password: text_or(ps, "Password"@, ""@),
        auth_method: text_or(ps, "AuthenticationMethod"@, "chap"@),
        context_type: text_or(ps, "Type"@, ""@),
    }
}

/// The APN entries of the internet contexts, in their order.
pub open spec fn internet_apns(cs: Seq<(Seq<char>, PropsView)>) -> Seq<ApnView>
    decreases cs.len(),
{
    if cs.len() == 0 {
        seq![]
    } else if is_internet(cs.last().1) {
        internet_apns(cs.drop_last()).push(apn_of(cs.last().0, cs.last().1))
    } else {
        internet_apns(cs.drop_last())
    }
}

/// The APN entries of the internet contexts (see `internet_apns`).
pub fn apn_contexts(contexts: &Vec<ContextEntry>) -> (r: Vec<ApnContext>)
    ensures
        r@.map_values(|c: ApnContext| apn_view(c)) == internet_apns(entries_view(contexts@)),
{
    let ghost all = entries_view(contexts@);
    let mut out: Vec<ApnContext> = Vec::new();
    let mut i: usize = 0;
    while i < contexts.len()
        invariant
            i <= contexts@.len() == all.len(),
            all == entries_view(contexts@),
            out@.map_values(|c: ApnContext| apn_view(c)) == internet_apns(all.subrange(0, i as int)),
        decreases contexts@.len() - i,
    {
        let ghost pre = all.subrange(0, i + 1);
        assert(pre.drop_last() =~= all.subrange(0, i as int));
        assert(pre.last() == (contexts@[i as int].path@, props_view(contexts@[i as int].props@)));
        let e = &contexts[i];
        if is_internet_exec(&e.props) {
            let c = ApnContext {
                path: e.path.clone(),
                name: text_or_exec(&e.props, "Name", "Internet"),
                active: flag_exec(&e.props, "Active"),
                apn: text_or_exec(&e.props, "AccessPointName", ""),
                protocol: text_or_exec(&e.props, "Protocol", "ip"),
                username: text_or_exec(&e.props, "Username", ""),
                password: text_or_exec(&e.props, "Password", ""),
                auth_method: text_or_exec(&e.props, "AuthenticationMethod", "chap"),
                context_type: text_or_exec(&e.props, "Type", ""),
            };
            let ghost before = out@;
            out.push(c);
            assert(out@.map_values(|c: ApnContext| apn_view(c)) =~= before.map_values(
                |c: ApnContext| apn_view(c),
            ).push(apn_of(pre.last().0, pre.last().1)));
        }
        i = i + 1;
    }
    assert(all.subrange(0, all.len() as int) =~= all);
    out
}

/// The position of the first APN entry at `path`, if any.
pub fn find_apn_context(contexts: &Vec<ApnContext>, path: &str) -> (r: Option<usize>)
    ensures
        match r {
            Some(i) => i < contexts@.len() && contexts@[i as int].path@ == path@ && forall|j: int|
                0 <= j < i ==> contexts@[j].path@ != path@,
            None => forall|j: int| 0 <= j < contexts@.len() ==> contexts@[j].path@ != path@,
        },
{
    let p = chars_of(path);
    let mut i: usize = 0;
    while i < contexts.len()
        invariant
            i <= contexts@.len(),
            p@ == path@,
            forall|j: int| 0 <= j < i ==> contexts@[j].path@ != path@,
        decreases contexts@.len() - i,
    {
        let c = chars_of_string(&contexts[i].path);
        if same_chars(c.as_slice(), p.as_slice()) {
            return Some(i);
        }
        i = i + 1;
    }
    None
}

/// One property write, when the value is given.
pub open spec fn opt_write(key: Seq<char>, value: Option<String>) -> Seq<(Seq<char>, Seq<char>)> {
    match value {
        Some(v) => seq![(key, v@)],
        None => seq![],
    }
}

/// The property writes of an APN change, in order: access point name,
/// protocol, user name, password, authentication method, each when given.
pub open spec fn apn_writes(req: SetApnRequest) -> Seq<(Seq<char>, Seq<char>)> {
    opt_write("AccessPointName"@, req.apn) + opt_write("Protocol"@, req.protocol) + opt_write(
        "Username"@,
        req.username,
    ) + opt_write("Password"@, req.password) + opt_write("AuthenticationMethod"@, req.auth_method)
}

/// The views of property writes.
pub open spec fn writes_view(w: Seq<(&'static str, String)>) -> Seq<(Seq<char>, Seq<char>)> {
    w.map_values(|p: (&'static str, String)| (p.0@, p.1@))
}

fn push_write(out: &mut Vec<(&'static str, String)>, key: &'static str, value: &Option<String>)
    ensures
        writes_view(final(out)@) == writes_view(old(out)@) + opt_write(key@, *value),
{
    let ghost before = out@;
    match value {
        Some(v) => {
            out.push((key, v.clone()));
            assert(writes_view(out@) =~= writes_view(before) + opt_write(key@, *value));
        },
        None => {
            assert(writes_view(out@) =~= writes_view(before) + opt_write(key@, *value));
        },
    }
}

/// The property writes of an APN change (see `apn_writes`); refused
/// without a context path.
pub fn apn_property_writes(req: &SetApnRequest) -> (r: Result<Vec<(&'static str, String)>, String>)
    ensures
        req.context_path@.len() == 0 ==> (r matches Err(e) && e@ == "context_path is required"@),
        req.context_path@.len() > 0 ==> (r matches Ok(w) && writes_view(w@) == apn_writes(*req)),
{
    if req.context_path.unicode_len() == 0 {
        return Err("context_path is required".to_owned());
    }
    let mut out: Vec<(&'static str, String)> = Vec::new();
    assert(writes_view(out@) =~= seq![]);
    push_write(&mut out, "AccessPointName", &req.apn);
    push_write(&mut out, "Protocol", &req.protocol);
    push_write(&mut out, "Username", &req.username);
    push_write(&mut out, "Password", &req.password);
    push_write(&mut out, "AuthenticationMethod", &req.auth_method);
    assert(writes_view(out@) =~= apn_writes(*req));
    Ok(out)
}

} // verus!
