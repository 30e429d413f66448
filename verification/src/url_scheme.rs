//! `afsim://` links: what a link asks for, and how it is read.
//!
//! A link is `afsim://` (repeated any number of times), an action, and
//! optionally `?` and a query of `&`-separated `name=value` pairs whose names
//! and values are percent-encoded. `scene` and `script` name the scenario and
//! its entry script; every other name is kept as a parameter.

use vstd::prelude::*;

use crate::config::scheme_prefix;
use crate::config::scheme_prefix_text;
use crate::params::ParamMap;
use crate::text::find_char;
use crate::text::opt_text;
use crate::text::find_char_from;
use crate::text::has_prefix;
use crate::text::lemma_find_char;
use crate::text::lemma_find_char_at;
use crate::text::lemma_find_char_none;
use crate::text::lemma_split_at;
use crate::text::lemma_split_without;
use crate::text::matches_at;
use crate::text::same_text;
use crate::text::split_on;
use crate::text::starts_with;
use crate::text::substring;

verus! {

/// The text that `urlencoding::decode` gives for `s`: `None` where the
/// percent-decoded bytes are not UTF-8.
pub uninterp spec fn url_decoded(s: Seq<char>) -> Option<Seq<char>>;

/// Calls `urlencoding::decode`, which percent-decodes `s` and checks that the
/// bytes are UTF-8. What comes back is `url_decoded` of `s`: the decoded text,
/// or `None` where the crate reports a UTF-8 error.
#[verifier::external_body]
fn url_decode(s: &str) -> (r: Option<String>)
    ensures
        match r {
            Some(d) => url_decoded(s@) == Some(d@),
            None => url_decoded(s@) is None,
        },
{
    match urlencoding::decode(s) {
        Ok(d) => Some(d.into_owned()),
        Err(_) => None,
    }
}

/// `s` has no `%`.
pub open spec fn no_percent(s: Seq<char>) -> bool {
    forall|i: int| 0 <= i < s.len() ==> s[i] != '%'
}

/// A name or value of the query, decoded. Text without `%` is its own
/// decoding: `urlencoding::decode` hands such text back as it is.
pub open spec fn decode_piece(s: Seq<char>) -> Option<Seq<char>> {
    if no_percent(s) {
        Some(s)
    } else {
        url_decoded(s)
    }
}

/// Decodes one name or value of the query.
pub fn decode_component(s: &str) -> (r: Option<String>)
    ensures
        match r {
            Some(d) => decode_piece(s@) == Some(d@),
            None => decode_piece(s@) is None,
        },
{
    match find_char_from(s, '%', 0) {
        None => Some(s.to_owned()),
        Some(_) => url_decode(s),
    }
}

/// `scene`: the parameter that names the scenario.
pub open spec fn scene_key() -> Seq<char> {
    seq!['s', 'c', 'e', 'n', 'e']
}

/// `script`: the parameter that names the entry script.
pub open spec fn script_key() -> Seq<char> {
    seq!['s', 'c', 'r', 'i', 'p', 't']
}

/// What the query of a link has set so far.
pub struct QueryState {
    pub scene: Option<Seq<char>>,
    pub script: Option<Seq<char>>,
    pub params: Map<Seq<char>, Seq<char>>,
}

/// Nothing set.
pub open spec fn empty_query() -> QueryState {
    QueryState { scene: None, script: None, params: Map::empty() }
}

/// The state after `name=value`: `scene` and `script` set their fields,
/// any other name sets a parameter; a later pair wins over an earlier one.
pub open spec fn with_param(st: QueryState, name: Seq<char>, value: Seq<char>) -> QueryState {
    if name == scene_key() {
        QueryState { scene: Some(value), script: st.script, params: st.params }
    } else if name == script_key() {
        QueryState { scene: st.scene, script: Some(value), params: st.params }
    } else {
        QueryState { scene: st.scene, script: st.script, params: st.params.insert(name, value) }
    }
}

/// One `&`-separated piece of the query: a piece without `=` is passed
/// over; otherwise the text before the first `=` is the name and the rest
/// the value, and the whole link is refused when either does not decode.
pub open spec fn piece_step(st: QueryState, piece: Seq<char>) -> Option<QueryState> {
    match find_char(piece, '=') {
        None => Some(st),
        Some(e) => match (decode_piece(piece.take(e)), decode_piece(piece.skip(e + 1))) {
            (Some(k), Some(v)) => Some(with_param(st, k, v)),
            _ => None,
        },
    }
}

/// The pieces read in order from `st`; once refused, refused.
pub open spec fn fold_pieces(st: Option<QueryState>, pieces: Seq<Seq<char>>) -> Option<QueryState>
    decreases pieces.len(),
{
    if pieces.len() == 0 {
        st
    } else {
        let next = match st {
            Some(s) => piece_step(s, pieces[0]),
            None => None,
        };
        fold_pieces(next, pieces.skip(1))
    }
}

/// `s` without every leading copy of `p`, as `str::trim_start_matches` cuts it.
pub open spec fn strip_all_prefix(s: Seq<char>, p: Seq<char>) -> Seq<char>
    decreases s.len(),
{
    if p.len() > 0 && has_prefix(s, p) {
        strip_all_prefix(s.skip(p.len() as int), p)
    } else {
        s
    }
}

/// What a link holds, as sequences of characters.
pub struct UrlSchemeView {
    pub action: Seq<char>,
    pub scene_name: Option<Seq<char>>,
    pub script_entry: Option<Seq<char>>,
    pub params: Option<Seq<char>>,
    pub parsed_params: Map<Seq<char>, Seq<char>>,
}

/// The link `url` read: `None` when it does not start with `afsim://` or a
/// name or value of its query does not decode. Otherwise, after every
/// leading `afsim://`, the action is the text up to the first `?` (all of it
/// when there is none), `params` the text after that `?`, and the pieces of
/// `params` set scene, script and the other parameters.
pub open spec fn spec_parse_url(url: Seq<char>) -> Option<UrlSchemeView> {
    if !has_prefix(url, scheme_prefix()) {
        None
    } else {
        let c = strip_all_prefix(url, scheme_prefix());
        match find_char(c, '?') {
            None => Some(
                UrlSchemeView {
                    action: c,
                    scene_name: None,
                    script_entry: None,
                    params: None,
                    parsed_params: Map::empty(),
                },
            ),
            Some(q) => match fold_pieces(Some(empty_query()), split_on(c.skip(q + 1), '&')) {
                None => None,
                Some(st) => Some(
                    UrlSchemeView {
                        action: c.take(q),
                        scene_name: st.scene,
                        script_entry: st.script,
                        params: Some(c.skip(q + 1)),
                        parsed_params: st.params,
                    },
                ),
            },
        }
    }
}

/// What an `afsim://` link asks for.
#[derive(Debug)]
pub struct UrlSchemeData {
    /// The text between `afsim://` and `?`, such as `run`.
    pub action: String,
    /// The `scene` parameter.
    pub scene_name: Option<String>,
    /// The `script` parameter.
    pub script_entry: Option<String>,
    /// The query as it stands in the link, after `?`.
    pub params: Option<String>,
    /// The other parameters, decoded.
    pub parsed_params: ParamMap,
}

impl View for UrlSchemeData {
    type V = UrlSchemeView;

    open spec fn view(&self) -> UrlSchemeView {
        UrlSchemeView {
            action: self.action@,
            scene_name: opt_text(self.scene_name),
            script_entry: opt_text(self.script_entry),
            params: opt_text(self.params),
            parsed_params: self.parsed_params@,
        }
    }
}

impl Clone for UrlSchemeData {
    fn clone(&self) -> (r: Self)
        ensures
            r@ == self@,
    {
        UrlSchemeData {
            action: self.action.clone(),
            scene_name: match &self.scene_name {
                Some(s) => Some(s.clone()),
                None => None,
            },
            script_entry: match &self.script_entry {
                Some(s) => Some(s.clone()),
                None => None,
            },
            params: match &self.params {
                Some(s) => Some(s.clone()),
                None => None,
            },
            parsed_params: self.parsed_params.clone(),
        }
    }
}

impl UrlSchemeData {
    /// What the query of this link has set.
    pub open spec fn query_state(&self) -> QueryState {
        QueryState {
            scene: opt_text(self.scene_name),
            script: opt_text(self.script_entry),
            params: self.parsed_params@,
        }
    }

    /// Records the decoded pair `name=value`.
    pub fn set_param(&mut self, name: String, value: String)
        ensures
            final(self).action == old(self).action,
            final(self).params == old(self).params,
            final(self).query_state() == with_param(old(self).query_state(), name@, value@),
    {
        proof {
            reveal_strlit("scene");
            reveal_strlit("script");
        }
        assert("scene"@ =~= scene_key());
        assert("script"@ =~= script_key());
        if same_text(name.as_str(), "scene") {
            self.scene_name = Some(value);
        } else if same_text(name.as_str(), "script") {
            self.script_entry = Some(value);
        } else {
            self.parsed_params.insert(name, value);
        }
    }
}

/// Once refused, the rest of the query changes nothing.
pub proof fn lemma_fold_refused(pieces: Seq<Seq<char>>)
    ensures
        fold_pieces(None, pieces) is None,
    decreases pieces.len(),
{
    if pieces.len() > 0 {
        lemma_fold_refused(pieces.skip(1));
    }
}

/// Reading the first piece, then the others.
pub proof fn lemma_fold_first(st: Option<QueryState>, p: Seq<char>, rest: Seq<Seq<char>>)
    ensures
        fold_pieces(st, seq![p] + rest) == fold_pieces(
            match st {
                Some(s) => piece_step(s, p),
                None => None,
            },
            rest,
        ),
{
    assert((seq![p] + rest)[0] == p);
    assert((seq![p] + rest).skip(1) =~= rest);
}

/// The query of the documented link form, `scene=<scene>&script=<script>`.
pub open spec fn run_query(scene: Seq<char>, script: Seq<char>) -> Seq<char> {
    scene_key() + seq!['='] + scene + seq!['&'] + script_key() + seq!['='] + script
}

/// One copy of `afsim://` in front of text that does not start with another
/// is cut away.
proof fn lemma_strip_once(rest: Seq<char>)
    requires
        !has_prefix(rest, scheme_prefix()),
    ensures
        strip_all_prefix(scheme_prefix() + rest, scheme_prefix()) == rest,
{
    let pre = scheme_prefix();
    let url = pre + rest;
    assert(url.subrange(0, pre.len() as int) =~= pre);
    assert(url.skip(pre.len() as int) =~= rest);
    assert(strip_all_prefix(url, pre) == strip_all_prefix(rest, pre));
}

/// The documented query is two pieces.
proof fn lemma_run_query_pieces(scene: Seq<char>, script: Seq<char>)
    requires
        forall|i: int| 0 <= i < scene.len() ==> scene[i] != '&',
        forall|i: int| 0 <= i < script.len() ==> script[i] != '&',
    ensures
        split_on(run_query(scene, script), '&') == seq![scene_key() + seq!['='] + scene]
            + seq![script_key() + seq!['='] + script],
{
    let query = run_query(scene, script);
    let sl = scene.len() as int;
    let piece1 = scene_key() + seq!['='] + scene;
    let piece2 = script_key() + seq!['='] + script;
    assert forall|j: int| 0 <= j < 6 + sl implies query[j] != '&' by {
        if j >= 6 {
            assert(query[j] == scene[j - 6]);
        }
    }
    assert(query[6 + sl] == '&');
    lemma_split_at(query, '&', 6 + sl);
    assert(query.take(6 + sl) =~= piece1);
    assert(query.skip(6 + sl + 1) =~= piece2);
    assert forall|j: int| 0 <= j < piece2.len() implies piece2[j] != '&' by {
        if j >= 7 {
            assert(piece2[j] == script[j - 7]);
        }
    }
    lemma_split_without(piece2, '&');
}

/// Reading `scene=<scene>` and then `script=<script>`.
proof fn lemma_run_query_read(scene: Seq<char>, script: Seq<char>)
    ensures
        fold_pieces(
            Some(empty_query()),
            seq![scene_key() + seq!['='] + scene] + seq![script_key() + seq!['='] + script],
        ) == match (decode_piece(scene), decode_piece(script)) {
            (Some(a), Some(b)) => Some(
                QueryState { scene: Some(a), script: Some(b), params: Map::empty() },
            ),
            _ => None,
        },
{
    let piece1 = scene_key() + seq!['='] + scene;
    let piece2 = script_key() + seq!['='] + script;
    lemma_fold_first(Some(empty_query()), piece1, seq![piece2]);
    lemma_find_char_at(piece1, '=', 5);
    assert(piece1.take(5) =~= scene_key());
    assert(piece1.skip(6) =~= scene);
    assert(decode_piece(scene_key()) == Some(scene_key()));
    lemma_find_char_at(piece2, '=', 6);
    assert(piece2.take(6) =~= script_key());
    assert(piece2.skip(7) =~= script);
    assert(decode_piece(script_key()) == Some(script_key()));
    let after1 = piece_step(empty_query(), piece1);
    lemma_fold_first(after1, piece2, seq![]);
    assert(seq![piece2] + Seq::<Seq<char>>::empty() =~= seq![piece2]);
    match (decode_piece(scene), decode_piece(script)) {
        (Some(a), Some(b)) => {
            let st1 = with_param(empty_query(), scene_key(), a);
            assert(after1 == Some(st1));
            assert(piece_step(st1, piece2) == Some(with_param(st1, script_key(), b)));
        },
        (Some(a), None) => {
            let st1 = with_param(empty_query(), scene_key(), a);
            assert(after1 == Some(st1));
            assert(piece_step(st1, piece2) is None);
        },
        _ => {
            assert(after1 is None);
        },
    }
}

/// A link of the documented form `afsim://<action>?scene=<scene>&script=<script>`
/// names that scenario and that script, decoded, and sets no other
/// parameter; it is refused exactly when one of the two does not decode.
/// (The action holds no `?` and does not itself start with `afsim://`; the
/// two values hold no `&`.)
pub proof fn law_documented_link(action: Seq<char>, scene: Seq<char>, script: Seq<char>)
    requires
        forall|i: int| 0 <= i < action.len() ==> action[i] != '?',
        !has_prefix(action, scheme_prefix()),
        forall|i: int| 0 <= i < scene.len() ==> scene[i] != '&',
        forall|i: int| 0 <= i < script.len() ==> script[i] != '&',
    ensures
        spec_parse_url(scheme_prefix() + action + seq!['?'] + run_query(scene, script)) == match (
            decode_piece(scene),
            decode_piece(script),
        ) {
            (Some(a), Some(b)) => Some(
                UrlSchemeView {
                    action: action,
                    scene_name: Some(a),
                    script_entry: Some(b),
                    params: Some(run_query(scene, script)),
                    parsed_params: Map::empty(),
                },
            ),
            _ => None,
        },
{
    let pre = scheme_prefix();
    let query = run_query(scene, script);
    let rest = action + seq!['?'] + query;
    let url = pre + rest;
    let al = action.len() as int;
    assert(pre + action + seq!['?'] + query =~= url);
    assert(url.subrange(0, 8) =~= pre);
    assert(!has_prefix(rest, pre)) by {
        if has_prefix(rest, pre) {
            if al >= 8 {
                assert(action.subrange(0, 8) =~= rest.subrange(0, 8));
            } else {
                assert(rest[al] == '?');
                assert(rest.subrange(0, 8)[al] == pre[al]);
            }
        }
    }
    lemma_strip_once(rest);
    assert forall|j: int| 0 <= j < al implies rest[j] != '?' by {
        assert(rest[j] == action[j]);
    }
    lemma_find_char_at(rest, '?', al);
    assert(rest.take(al) =~= action);
    assert(rest.skip(al + 1) =~= query);
    lemma_run_query_pieces(scene, script);
    lemma_run_query_read(scene, script);
}

/// A link that is read is rebuilt from its parts: after its leading
/// `afsim://` copies come its action, which holds no `?`, and, if it has a
/// query, `?` and the query as it stands.
pub proof fn law_link_parts(url: Seq<char>)
    ensures
        spec_parse_url(url) matches Some(d) ==> {
            &&& has_prefix(url, scheme_prefix())
            &&& forall|i: int| 0 <= i < d.action.len() ==> d.action[i] != '?'
            &&& strip_all_prefix(url, scheme_prefix()) == d.action + match d.params {
                Some(p) => seq!['?'] + p,
                None => Seq::<char>::empty(),
            }
        },
{
    if let Some(d) = spec_parse_url(url) {
        let c = strip_all_prefix(url, scheme_prefix());
        lemma_find_char(c, '?');
        match find_char(c, '?') {
            Some(q) => {
                assert forall|i: int| 0 <= i < d.action.len() implies d.action[i] != '?' by {
                    assert(d.action[i] == c[i]);
                }
                assert(c =~= c.take(q) + (seq!['?'] + c.skip(q + 1)));
            },
            None => {
                assert(c =~= c + Seq::<char>::empty());
            },
        }
    }
}

/// A link of another scheme is refused.
pub proof fn law_foreign_links_refused(url: Seq<char>)
    ensures
        !has_prefix(url, scheme_prefix()) ==> spec_parse_url(url) is None,
{
}

/// The value that the last piece of `pieces` whose name decodes to `key`
/// gives, decoded; `None` when no piece has that name.
pub open spec fn last_value(pieces: Seq<Seq<char>>, key: Seq<char>) -> Option<Seq<char>>
    decreases pieces.len(),
{
    if pieces.len() == 0 {
        None
    } else {
        let p = pieces.last();
        match find_char(p, '=') {
            Some(e) => if decode_piece(p.take(e)) == Some(key) {
                decode_piece(p.skip(e + 1))
            } else {
                last_value(pieces.drop_last(), key)
            },
            None => last_value(pieces.drop_last(), key),
        }
    }
}

/// Reading the pieces, then one more.
proof fn lemma_fold_push(st: Option<QueryState>, pre: Seq<Seq<char>>, p: Seq<char>)
    ensures
        fold_pieces(st, pre.push(p)) == match fold_pieces(st, pre) {
            Some(s) => piece_step(s, p),
            None => None,
        },
    decreases pre.len(),
{
    if pre.len() == 0 {
        assert(pre.push(p) =~= seq![p] + Seq::<Seq<char>>::empty());
        lemma_fold_first(st, p, Seq::<Seq<char>>::empty());
    } else {
        let next = match st {
            Some(s) => piece_step(s, pre[0]),
            None => None,
        };
        assert(pre.push(p)[0] == pre[0]);
        assert(pre.push(p).skip(1) =~= pre.skip(1).push(p));
        lemma_fold_push(next, pre.skip(1), p);
    }
}

/// What the pieces read from nothing have set: scene and script by the last
/// piece of that name, every other name by its last piece, and neither
/// `scene` nor `script` among the other parameters.
proof fn lemma_fold_last_wins(pieces: Seq<Seq<char>>)
    ensures
        fold_pieces(Some(empty_query()), pieces) matches Some(st) ==> {
            &&& st.scene == last_value(pieces, scene_key())
            &&& st.script == last_value(pieces, script_key())
            &&& !st.params.dom().contains(scene_key())
            &&& !st.params.dom().contains(script_key())
            &&& forall|k: Seq<char>|
                k != scene_key() && k != script_key() ==> #[trigger] st.params.get(k)
                    == last_value(pieces, k)
        },
    decreases pieces.len(),
{
    if pieces.len() > 0 {
        let pre = pieces.drop_last();
        let p = pieces.last();
        assert(pre.push(p) =~= pieces);
        lemma_fold_push(Some(empty_query()), pre, p);
        lemma_fold_last_wins(pre);
        if let Some(st) = fold_pieces(Some(empty_query()), pieces) {
            let st0 = fold_pieces(Some(empty_query()), pre)->0;
            assert(fold_pieces(Some(empty_query()), pre) is Some);
            assert(piece_step(st0, p) == Some(st));
            match find_char(p, '=') {
                None => {
                    assert(st == st0);
                    assert forall|k: Seq<char>|
                        k != scene_key() && k != script_key() implies #[trigger] st.params.get(k)
                        == last_value(pieces, k) by {
                        assert(last_value(pieces, k) == last_value(pre, k));
                    }
                },
                Some(e) => {
                    let k0 = decode_piece(p.take(e))->0;
                    let v0 = decode_piece(p.skip(e + 1))->0;
                    assert(decode_piece(p.take(e)) is Some);
                    assert(decode_piece(p.skip(e + 1)) is Some);
                    assert(st == with_param(st0, k0, v0));
                    assert forall|k: Seq<char>|
                        k != scene_key() && k != script_key() implies #[trigger] st.params.get(k)
                        == last_value(pieces, k) by {
                        assert(st0.params.get(k) == last_value(pre, k));
                        if k == k0 {
                            assert(last_value(pieces, k) == Some(v0));
                            assert(st.params == st0.params.insert(k0, v0));
                            assert(st.params.dom().contains(k0));
                        } else {
                            assert(last_value(pieces, k) == last_value(pre, k));
                            if k0 != scene_key() && k0 != script_key() {
                                assert(st.params == st0.params.insert(k0, v0));
                                assert(st.params.dom().contains(k) == st0.params.dom().contains(k));
                            }
                        }
                    }
                },
            }
        }
    }
}

/// In a link that is read, the order of the query's pieces does not matter
/// beyond that a later piece wins: the scene is the decoded value of the
/// last piece named `scene`, the script that of the last piece named
/// `script`, every other name maps to the decoded value of its last piece,
/// and `scene` and `script` never stand among the other parameters. A link
/// without a query sets none of them.
pub proof fn law_query_last_wins(url: Seq<char>)
    ensures
        spec_parse_url(url) matches Some(d) ==> match d.params {
            Some(q) => {
                &&& d.scene_name == last_value(split_on(q, '&'), scene_key())
                &&& d.script_entry == last_value(split_on(q, '&'), script_key())
                &&& !d.parsed_params.dom().contains(scene_key())
                &&& !d.parsed_params.dom().contains(script_key())
                &&& forall|k: Seq<char>|
                    k != scene_key() && k != script_key() ==> #[trigger] d.parsed_params.get(k)
                        == last_value(split_on(q, '&'), k)
            },
            None => d.scene_name is None && d.script_entry is None && d.parsed_params.dom()
                =~= Set::<Seq<char>>::empty(),
        },
{
    if has_prefix(url, scheme_prefix()) {
        let c = strip_all_prefix(url, scheme_prefix());
        if let Some(q) = find_char(c, '?') {
            lemma_fold_last_wins(split_on(c.skip(q + 1), '&'));
        }
    }
}

/// Reads the link `url`.
pub fn parse_url_scheme(url: &str) -> (r: Option<UrlSchemeData>)
    ensures
        match r {
            Some(d) => spec_parse_url(url@) == Some(d@),
            None => spec_parse_url(url@) is None,
        },
{
    let prefix = scheme_prefix_text();
    if !starts_with(url, prefix.as_str()) {
        return None;
    }
    let n = url.unicode_len();
    let m = prefix.unicode_len();
    let mut start: usize = 0;
    assert(url@.skip(0) =~= url@);
    while matches_at(url, start, prefix.as_str())
        invariant
            n == url@.len(),
            m == prefix@.len(),
            prefix@ == scheme_prefix(),
            start <= n,
            strip_all_prefix(url@, scheme_prefix()) == strip_all_prefix(
                url@.skip(start as int),
                scheme_prefix(),
            ),
        decreases n - start,
    {
        proof {
            let t = url@.skip(start as int);
            assert(t.subrange(0, m as int) =~= url@.subrange(start as int, start + m));
            assert(t.skip(m as int) =~= url@.skip(start + m));
        }
        start = start + m;
    }
    let ghost c = url@.skip(start as int);
    proof {
        if has_prefix(c, scheme_prefix()) {
            assert(c.subrange(0, m as int) =~= url@.subrange(start as int, start + m));
        }
        assert(strip_all_prefix(c, scheme_prefix()) == c);
    }
    match find_char_from(url, '?', start) {
        None => {
            proof {
                assert forall|j: int| 0 <= j < c.len() implies c[j] != '?' by {
                    assert(c[j] == url@[start + j]);
                }
                lemma_find_char_none(c, '?');
            }
            let action = substring(url, start, n);
            assert(action@ =~= c);
            let d = UrlSchemeData {
                action,
                scene_name: None,
                script_entry: None,
                params: None,
                parsed_params: ParamMap::new(),
            };
            Some(d)
        },
        Some(q) => {
            proof {
                assert forall|j: int| 0 <= j < q - start implies c[j] != '?' by {
                    assert(c[j] == url@[start + j]);
                }
                lemma_find_char_at(c, '?', q - start);
                assert(c.skip(q - start + 1) =~= url@.skip(q + 1));
                assert(c.take(q - start) =~= url@.subrange(start as int, q as int));
            }
            let action = substring(url, start, q);
            let params = substring(url, q + 1, n);
            assert(params@ =~= url@.skip(q + 1));
            let mut d = UrlSchemeData {
                action,
                scene_name: None,
                script_entry: None,
                params: Some(params),
                parsed_params: ParamMap::new(),
            };
            assert(d.query_state() == empty_query());
            let ghost whole = fold_pieces(Some(empty_query()), split_on(url@.skip(q + 1), '&'));
            let mut pos = q + 1;
            loop
                invariant
                    n == url@.len(),
                    start <= q < n,
                    q + 1 <= pos <= n,
                    has_prefix(url@, scheme_prefix()),
                    c == url@.skip(start as int),
                    strip_all_prefix(url@, scheme_prefix()) == c,
                    find_char(c, '?') == Some(q - start),
                    c.skip(q - start + 1) == url@.skip(q + 1),
                    c.take(q - start) == url@.subrange(start as int, q as int),
                    d.action@ == url@.subrange(start as int, q as int),
                    d.params == Some(params),
                    params@ == url@.skip(q + 1),
                    whole == fold_pieces(Some(empty_query()), split_on(url@.skip(q + 1), '&')),
                    whole == fold_pieces(Some(d.query_state()), split_on(url@.skip(pos as int), '&')),
                decreases n - pos,
            {
                let ghost t = url@.skip(pos as int);
                let ghost st = d.query_state();
                let end = match find_char_from(url, '&', pos) {
                    Some(e) => e,
                    None => n,
                };
                let ghost p = url@.subrange(pos as int, end as int);
                proof {
                    if end < n {
                        assert forall|j: int| 0 <= j < end - pos implies t[j] != '&' by {
                            assert(t[j] == url@[pos + j]);
                        }
                        lemma_split_at(t, '&', end - pos);
                        assert(t.take(end - pos) =~= p);
                        assert(t.skip(end - pos + 1) =~= url@.skip(end + 1));
                        lemma_fold_first(Some(st), p, split_on(url@.skip(end + 1), '&'));
                    } else {
                        assert forall|j: int| 0 <= j < t.len() implies t[j] != '&' by {
                            assert(t[j] == url@[pos + j]);
                        }
                        lemma_split_without(t, '&');
                        assert(t =~= p);
                        lemma_fold_first(Some(st), p, seq![]);
                    }
                }
                match find_char_from(url, '=', pos) {
                    Some(e) if e < end => {
                        proof {
                            assert forall|j: int| 0 <= j < e - pos implies p[j] != '=' by {
                                assert(p[j] == url@[pos + j]);
                            }
                            lemma_find_char_at(p, '=', e - pos);
                            assert(p.take(e - pos) =~= url@.subrange(pos as int, e as int));
                            assert(p.skip(e - pos + 1) =~= url@.subrange(e + 1, end as int));
                        }
                        let key = substring(url, pos, e);
                        let value = substring(url, e + 1, end);
                        let k = match decode_component(key.as_str()) {
                            Some(k) => k,
                            None => {
                                proof {
                                    if end < n {
                                        lemma_fold_refused(split_on(url@.skip(end + 1), '&'));
                                    }
                                }
                                return None;
                            },
                        };
                        let v = match decode_component(value.as_str()) {
                            Some(v) => v,
                            None => {
                                proof {
                                    if end < n {
                                        lemma_fold_refused(split_on(url@.skip(end + 1), '&'));
                                    }
                                }
                                return None;
                            },
                        };
                        d.set_param(k, v);
                    },
                    _ => {
                        proof {
                            assert forall|j: int| 0 <= j < p.len() implies p[j] != '=' by {
                                assert(p[j] == url@[pos + j]);
                            }
                            lemma_find_char_none(p, '=');
                        }
                    },
                }
                if end == n {
                    assert(d@.action == c.take(q - start));
                    return Some(d);
                }
                pos = end + 1;
            }
        },
    }
}

} // verus!
