//! Design tokens in the W3C design-token format: a tree in which a node with
//! `$value` is a token and any other object is a group, flattened to a map from
//! dot-separated paths to tokens.
use vstd::prelude::*;
use crate::json::{
    clone_json_vec, clone_members, get_member, get_str_member, json_obj_view, json_seq_view,
    json_view, lemma_json_obj_view_len, member, str_member, Json, JsonNumber, JsonV,
};
use crate::text::{
    chars_of, ends_with, push_char, seq_lt, starts_with, str_ends_with, str_eq, str_lt, str_starts_with,
};

verus! {

/// The value of a design token: a primitive, a reference string, or a composite.
#[derive(Debug)]
pub enum TokenValue {
    String(String),
    Number(JsonNumber),
    Bool(bool),
    Array(Vec<Json>),
    Object(Vec<(String, Json)>),
}

/// The mathematical value of a token value.
pub enum TokenValueV {
    String(Seq<char>),
    Number(JsonNumber),
    Bool(bool),
    Array(Seq<JsonV>),
    Object(Seq<(Seq<char>, JsonV)>),
}

impl View for TokenValue {
    type V = TokenValueV;

    open spec fn view(&self) -> TokenValueV {
        match self {
            TokenValue::String(s) => TokenValueV::String(s@),
            TokenValue::Number(n) => TokenValueV::Number(*n),
            TokenValue::Bool(b) => TokenValueV::Bool(*b),
            TokenValue::Array(v) => TokenValueV::Array(json_seq_view(v@)),
            TokenValue::Object(m) => TokenValueV::Object(json_obj_view(m@)),
        }
    }
}

impl TokenValue {
    /// A copy of the value.
    pub fn deep_clone(&self) -> (r: TokenValue)
        ensures
            r@ == self@,
    {
        match self {
            TokenValue::String(s) => TokenValue::String(s.clone()),
            TokenValue::Number(n) => TokenValue::Number(n.copy()),
            TokenValue::Bool(b) => TokenValue::Bool(*b),
            TokenValue::Array(v) => TokenValue::Array(clone_json_vec(v)),
            TokenValue::Object(m) => TokenValue::Object(clone_members(m)),
        }
    }
}

/// The token value a JSON `$value` stands for; `null` stands for none.
pub open spec fn token_value_of(j: JsonV) -> Option<TokenValueV> {
    match j {
        JsonV::Null => None,
        JsonV::Bool(b) => Some(TokenValueV::Bool(b)),
        JsonV::Number(n) => Some(TokenValueV::Number(n)),
        JsonV::String(s) => Some(TokenValueV::String(s)),
        JsonV::Array(a) => Some(TokenValueV::Array(a)),
        JsonV::Object(m) => Some(TokenValueV::Object(m)),
    }
}

/// Read a token value from the JSON of `$value`.
pub fn token_value_from_json(j: &Json) -> (r: Option<TokenValue>)
    ensures
        match r {
            Some(v) => token_value_of(j@) == Some(v@),
            None => token_value_of(j@) is None,
        },
{
    match j {
        Json::Null => None,
        Json::Bool(b) => Some(TokenValue::Bool(*b)),
        Json::Number(n) => Some(TokenValue::Number(n.copy())),
        Json::String(s) => Some(TokenValue::String(s.clone())),
        Json::Array(v) => Some(TokenValue::Array(clone_json_vec(v))),
        Json::Object(m) => Some(TokenValue::Object(clone_members(m))),
    }
}

/// A single design token with a value and optional metadata.
#[derive(Debug)]
pub struct Token {
    pub value: TokenValue,
    pub token_type: Option<String>,
    pub description: Option<String>,
    pub extensions: Option<Json>,
}

/// A group of tokens or sub-groups, optionally with a shared type.
#[derive(Debug)]
pub struct TokenGroup {
    pub group_type: Option<String>,
    pub description: Option<String>,
    pub children: Vec<(String, TokenNode)>,
}

/// A node in the token tree: a token (has `$value`) or a group.
#[derive(Debug)]
pub enum TokenNode {
    Token(Token),
    Group(TokenGroup),
}

/// The view of an optional string.
pub open spec fn opt_str(o: Option<String>) -> Option<Seq<char>> {
    match o {
        Some(s) => Some(s@),
        None => None,
    }
}

/// The view of an optional string slice.
pub open spec fn opt_strref(o: Option<&str>) -> Option<Seq<char>> {
    match o {
        Some(s) => Some(s@),
        None => None,
    }
}

/// The mathematical value of a token.
pub struct TokenV {
    pub value: TokenValueV,
    pub token_type: Option<Seq<char>>,
    pub description: Option<Seq<char>>,
    pub extensions: Option<JsonV>,
}

/// The mathematical value of a token tree node.
pub enum NodeV {
    Token(TokenV),
    Group {
        group_type: Option<Seq<char>>,
        description: Option<Seq<char>>,
        children: Seq<(Seq<char>, NodeV)>,
    },
}

pub open spec fn token_view(t: Token) -> TokenV {
    TokenV {
        value: t.value@,
        token_type: opt_str(t.token_type),
        description: opt_str(t.description),
        extensions: match t.extensions {
            Some(j) => Some(json_view(j)),
            None => None,
        },
    }
}

pub open spec fn node_view(n: TokenNode) -> NodeV
    decreases n,
{
    match n {
        TokenNode::Token(t) => NodeV::Token(token_view(t)),
        TokenNode::Group(g) => {
            proof {
                broadcast use vstd::std_specs::vec::axiom_vec_decreases_to_view;
            }
            NodeV::Group {
                group_type: opt_str(g.group_type),
                description: opt_str(g.description),
                children: children_view(g.children@),
            }
        },
    }
}

pub open spec fn children_view(s: Seq<(String, TokenNode)>) -> Seq<(Seq<char>, NodeV)>
    decreases s,
{
    if s.len() == 0 {
        Seq::empty()
    } else {
        children_view(s.subrange(0, s.len() - 1)).push((s[s.len() - 1].0@, node_view(s[s.len() - 1].1)))
    }
}

proof fn lemma_children_view_push(s: Seq<(String, TokenNode)>, x: (String, TokenNode))
    ensures
        children_view(s.push(x)) == children_view(s).push((x.0@, node_view(x.1))),
{
    assert(s.push(x).subrange(0, s.len() as int) =~= s);
}

/// Whether a member name is a `$`-prefixed key (metadata, not a child).
pub open spec fn is_meta_key(k: Seq<char>) -> bool {
    starts_with(k, seq!['$'])
}

/// The token tree node a JSON value stands for: an object with `$value` is a
/// token (none when its value is `null`), any other object a group of its
/// non-`$` members that are nodes; anything but an object is none.
pub open spec fn parse_spec(j: JsonV) -> Option<NodeV>
    decreases j,
{
    match j {
        JsonV::Object(m) => {
            match member(m, "$value"@) {
                Some(v) => match token_value_of(v) {
                    Some(tv) => Some(
                        NodeV::Token(
                            TokenV {
                                value: tv,
                                token_type: str_member(m, "$type"@),
                                description: str_member(m, "$description"@),
                                extensions: member(m, "$extensions"@),
                            },
                        ),
                    ),
                    None => None,
                },
                None => Some(
                    NodeV::Group {
                        group_type: str_member(m, "$type"@),
                        description: str_member(m, "$description"@),
                        children: parse_members(m),
                    },
                ),
            }
        },
        _ => None,
    }
}

/// The child nodes of a group object, in member order.
pub open spec fn parse_members(m: Seq<(Seq<char>, JsonV)>) -> Seq<(Seq<char>, NodeV)>
    decreases m,
{
    if m.len() == 0 {
        Seq::empty()
    } else {
        let init = parse_members(m.subrange(0, m.len() - 1));
        let (k, v) = m[m.len() - 1];
        if is_meta_key(k) {
            init
        } else {
            match parse_spec(v) {
                Some(node) => init.push((k, node)),
                None => init,
            }
        }
    }
}

proof fn lemma_parse_members_take(m: Seq<(Seq<char>, JsonV)>, i: int)
    requires
        0 <= i < m.len(),
    ensures
        parse_members(m.take(i + 1)) == ({
            let init = parse_members(m.take(i));
            if is_meta_key(m[i].0) {
                init
            } else {
                match parse_spec(m[i].1) {
                    Some(node) => init.push((m[i].0, node)),
                    None => init,
                }
            }
        }),
{
    assert(m.take(i + 1).subrange(0, i) =~= m.take(i));
}

/// Copy an optional string.
pub fn clone_opt_str(o: &Option<String>) -> (r: Option<String>)
    ensures
        opt_str(r) == opt_str(*o),
{
    match o {
        Some(s) => Some(s.clone()),
        None => None,
    }
}

/// Parse a JSON value into a token tree node.
pub fn parse_node(value: &Json) -> (r: Option<TokenNode>)
    ensures
        match r {
            Some(n) => parse_spec(value@) == Some(node_view(n)),
            None => parse_spec(value@) is None,
        },
    decreases value,
{
    match value {
        Json::Object(obj) => {
            proof {
                reveal_strlit("$value");
                reveal_strlit("$type");
                reveal_strlit("$description");
                reveal_strlit("$extensions");
            }
            match get_member(obj, "$value") {
                Some(v) => {
                    match token_value_from_json(v) {
                        Some(tv) => {
                            let token_type = match get_str_member(obj, "$type") {
                                Some(s) => Some(s.to_owned()),
                                None => None,
                            };
                            let description = match get_str_member(obj, "$description") {
                                Some(s) => Some(s.to_owned()),
                                None => None,
                            };
                            let extensions = match get_member(obj, "$extensions") {
                                Some(e) => Some(e.deep_clone()),
                                None => None,
                            };
                            let t = Token { value: tv, token_type, description, extensions };
                            Some(TokenNode::Token(t))
                        },
                        None => None,
                    }
                },
                None => {
                    let group_type = match get_str_member(obj, "$type") {
                        Some(s) => Some(s.to_owned()),
                        None => None,
                    };
                    let description = match get_str_member(obj, "$description") {
                        Some(s) => Some(s.to_owned()),
                        None => None,
                    };
                    let children = parse_children(obj);
                    Some(TokenNode::Group(TokenGroup { group_type, description, children }))
                },
            }
        },
        _ => None,
    }
}

/// The child nodes of the members of an object, skipping `$` keys and members
/// that are not nodes.
pub fn parse_children(obj: &Vec<(String, Json)>) -> (children: Vec<(String, TokenNode)>)
    ensures
        children_view(children@) == parse_members(json_obj_view(obj@)),
    decreases obj,
{
    let ghost m = json_obj_view(obj@);
    proof {
        lemma_json_obj_view_len(obj@);
    }
    let mut children: Vec<(String, TokenNode)> = Vec::new();
    let mut i: usize = 0;
    while i < obj.len()
        invariant
            i <= obj@.len(),
            m == json_obj_view(obj@),
            m.len() == obj@.len(),
            forall|k: int| 0 <= k < obj@.len() ==> #[trigger] m[k] == (obj@[k].0@, json_view(obj@[k].1)),
            children_view(children@) == parse_members(m.take(i as int)),
        decreases obj@.len() - i,
    {
        proof {
            broadcast use vstd::std_specs::vec::axiom_vec_index_decreases;
            lemma_parse_members_take(m, i as int);
            reveal_strlit("$");
            assert("$"@ =~= seq!['$']);
        }
        let key = &obj[i].0;
        if !str_starts_with(key.as_str(), "$") {
            match parse_node(&obj[i].1) {
                Some(node) => {
                    let k = key.clone();
                    proof {
                        lemma_children_view_push(children@, (k, node));
                    }
                    children.push((k, node));
                },
                None => {},
            }
        }
        i = i + 1;
    }
    assert(m.take(m.len() as int) =~= m);
    children
}

/// A parsed design token file: the top-level nodes, by name.
#[derive(Debug)]
pub struct DesignTokens {
    pub entries: Vec<(String, TokenNode)>,
}

/// A flattened token with its full path and resolved type.
#[derive(Debug)]
pub struct FlatToken {
    pub path: String,
    pub value: TokenValue,
    pub token_type: Option<String>,
    pub description: Option<String>,
}

/// The mathematical value of a flattened token.
pub struct FlatV {
    pub path: Seq<char>,
    pub value: TokenValueV,
    pub token_type: Option<Seq<char>>,
    pub description: Option<Seq<char>>,
}

impl View for FlatToken {
    type V = FlatV;

    open spec fn view(&self) -> FlatV {
        FlatV {
            path: self.path@,
            value: self.value@,
            token_type: opt_str(self.token_type),
            description: opt_str(self.description),
        }
    }
}

/// The views of a sequence of flat tokens.
pub open spec fn flat_views(s: Seq<FlatToken>) -> Seq<FlatV> {
    s.map_values(|f: FlatToken| f@)
}

/// Insert into a list kept in path order, replacing the token with the same
/// path: the list a path-keyed ordered map iterates.
pub open spec fn path_insert(m: Seq<FlatV>, t: FlatV) -> Seq<FlatV>
    decreases m.len(),
{
    if m.len() == 0 {
        seq![t]
    } else if seq_lt(m[0].path, t.path) {
        seq![m[0]] + path_insert(m.drop_first(), t)
    } else if m[0].path == t.path {
        seq![t] + m.drop_first()
    } else {
        seq![t] + m
    }
}

proof fn lemma_path_insert_skip(m: Seq<FlatV>, t: FlatV, i: int)
    requires
        0 <= i <= m.len(),
        forall|j: int| 0 <= j < i ==> seq_lt(#[trigger] m[j].path, t.path),
    ensures
        path_insert(m, t) == m.take(i) + path_insert(m.skip(i), t),
    decreases i,
{
    if i > 0 {
        assert forall|j: int| 0 <= j < i - 1 implies seq_lt(#[trigger] m.drop_first()[j].path, t.path) by {
            assert(m.drop_first()[j] == m[j + 1]);
        }
        lemma_path_insert_skip(m.drop_first(), t, i - 1);
        assert(m.drop_first().skip(i - 1) =~= m.skip(i));
        assert(seq![m[0]] + m.drop_first().take(i - 1) =~= m.take(i));
        assert(seq_lt(m[0].path, t.path));
    } else {
        assert(m.skip(0) =~= m);
        assert(m.take(0) =~= Seq::<FlatV>::empty());
    }
}

/// Insert a flat token into a path-ordered list, replacing one with the same path.
pub fn insert_flat(out: &mut Vec<FlatToken>, t: FlatToken)
    ensures
        flat_views(final(out)@) == path_insert(flat_views(old(out)@), t@),
{
    let ghost m = flat_views(out@);
    let mut i: usize = 0;
    while i < out.len() && str_lt(out[i].path.as_str(), t.path.as_str())
        invariant
            i <= out@.len(),
            m == flat_views(out@),
            forall|j: int| 0 <= j < i ==> seq_lt(#[trigger] m[j].path, t@.path),
        decreases out@.len() - i,
    {
        i = i + 1;
    }
    proof {
        lemma_path_insert_skip(m, t@, i as int);
    }
    if i < out.len() && str_eq(out[i].path.as_str(), t.path.as_str()) {
        let ghost tv = t@;
        out.remove(i);
        out.insert(i, t);
        proof {
            assert(m.skip(i as int)[0] == m[i as int]);
            assert(m.skip(i as int).drop_first() =~= m.skip(i + 1));
            assert(flat_views(out@) =~= m.take(i as int) + (seq![tv] + m.skip(i + 1)));
        }
    } else {
        let ghost tv = t@;
        out.insert(i, t);
        proof {
            if i < m.len() {
                assert(m.skip(i as int)[0] == m[i as int]);
            }
            assert(flat_views(out@) =~= m.take(i as int) + (seq![tv] + m.skip(i as int)));
        }
    }
}

/// `a`, else `b`.
pub open spec fn or_else(a: Option<Seq<char>>, b: Option<Seq<char>>) -> Option<Seq<char>> {
    match a {
        Some(x) => Some(x),
        None => b,
    }
}

/// The path of a child: `prefix.key` (just `key` at the top level), with a
/// trailing `._` dropped, and a `_` child standing for its group's own path.
pub open spec fn entry_path(prefix: Seq<char>, key: Seq<char>) -> Seq<char> {
    let raw = if prefix.len() == 0 { key } else { prefix + seq!['.'] + key };
    if ends_with(raw, seq!['.', '_']) {
        raw.take(raw.len() - 2)
    } else if key == seq!['_'] && prefix.len() > 0 {
        prefix
    } else {
        raw
    }
}

/// The path-ordered list `acc` after adding the tokens under `entries`, in
/// order; group types are inherited by tokens without their own.
pub open spec fn flat_entries(
    entries: Seq<(Seq<char>, NodeV)>,
    prefix: Seq<char>,
    inherited: Option<Seq<char>>,
    acc: Seq<FlatV>,
) -> Seq<FlatV>
    decreases entries,
{
    if entries.len() == 0 {
        acc
    } else {
        let before = flat_entries(entries.subrange(0, entries.len() - 1), prefix, inherited, acc);
        let (key, node) = entries[entries.len() - 1];
        if is_meta_key(key) {
            before
        } else {
            let path = entry_path(prefix, key);
            match node {
                NodeV::Token(t) => path_insert(
                    before,
                    FlatV {
                        path,
                        value: t.value,
                        token_type: or_else(t.token_type, inherited),
                        description: t.description,
                    },
                ),
                NodeV::Group { group_type, description, children } => flat_entries(
                    children,
                    path,
                    or_else(group_type, inherited),
                    before,
                ),
            }
        }
    }
}

proof fn lemma_flat_entries_take(
    entries: Seq<(Seq<char>, NodeV)>,
    prefix: Seq<char>,
    inherited: Option<Seq<char>>,
    acc: Seq<FlatV>,
    i: int,
)
    requires
        0 <= i < entries.len(),
    ensures
        flat_entries(entries.take(i + 1), prefix, inherited, acc) == ({
            let before = flat_entries(entries.take(i), prefix, inherited, acc);
            let (key, node) = entries[i];
            if is_meta_key(key) {
                before
            } else {
                let path = entry_path(prefix, key);
                match node {
                    NodeV::Token(t) => path_insert(
                        before,
                        FlatV {
                            path,
                            value: t.value,
                            token_type: or_else(t.token_type, inherited),
                            description: t.description,
                        },
                    ),
                    NodeV::Group { group_type, description, children } => flat_entries(
                        children,
                        path,
                        or_else(group_type, inherited),
                        before,
                    ),
                }
            }
        }),
{
    assert(entries.take(i + 1).subrange(0, i) =~= entries.take(i));
}

/// `prefix.key`, or `key` when the prefix is empty.
pub open spec fn joined_path(prefix: Seq<char>, key: Seq<char>) -> Seq<char> {
    if prefix.len() == 0 { key } else { prefix + seq!['.'] + key }
}

fn join_path(prefix: &str, key: &str) -> (raw: String)
    ensures
        raw@ == joined_path(prefix@, key@),
{
    let mut raw = prefix.to_owned();
    if !prefix.is_empty() {
        push_char(&mut raw, '.');
    }
    raw.append(key);
    assert(raw@ =~= joined_path(prefix@, key@));
    raw
}

/// The path of a child as `entry_path` gives it.
fn child_path(prefix: &str, key: &str) -> (p: String)
    ensures
        p@ == entry_path(prefix@, key@),
{
    let raw = join_path(prefix, key);
    proof {
        reveal_strlit("._");
        assert("._"@ =~= seq!['.', '_']);
        reveal_strlit("_");
        assert("_"@ =~= seq!['_']);
    }
    if str_ends_with(raw.as_str(), "._") {
        let rv = chars_of(raw.as_str());
        crate::text::string_of_range(&rv, 0, rv.len() - 2)
    } else if str_eq(key, "_") && !prefix.is_empty() {
        prefix.to_owned()
    } else {
        raw
    }
}

/// Add the tokens under `entries` to `out` (kept in path order).
pub fn flatten_nodes(
    entries: &Vec<(String, TokenNode)>,
    prefix: &str,
    inherited_type: Option<&str>,
    out: &mut Vec<FlatToken>,
)
    ensures
        flat_views(final(out)@) == flat_entries(
            children_view(entries@),
            prefix@,
            opt_strref(inherited_type),
            flat_views(old(out)@),
        ),
    decreases entries,
{
    let ghost cv = children_view(entries@);
    let ghost acc0 = flat_views(out@);
    let mut i: usize = 0;
    while i < entries.len()
        invariant
            i <= entries@.len(),
            cv == children_view(entries@),
            flat_views(out@) == flat_entries(cv.take(i as int), prefix@, opt_strref(inherited_type), acc0),
        decreases entries@.len() - i,
    {
        proof {
            broadcast use vstd::std_specs::vec::axiom_vec_index_decreases;
            lemma_children_view_len(entries@);
            lemma_flat_entries_take(cv, prefix@, opt_strref(inherited_type), acc0, i as int);
            reveal_strlit("$");
            assert("$"@ =~= seq!['$']);
        }
        let key = &entries[i].0;
        if !str_starts_with(key.as_str(), "$") {
            let path = child_path(prefix, key.as_str());
            match &entries[i].1 {
                TokenNode::Token(token) => {
                    let token_type = match &token.token_type {
                        Some(t) => Some(t.clone()),
                        None => match inherited_type {
                            Some(t) => Some(t.to_owned()),
                            None => None,
                        },
                    };
                    let ft = FlatToken {
                        path,
                        value: token.value.deep_clone(),
                        token_type,
                        description: clone_opt_str(&token.description),
                    };
                    insert_flat(out, ft);
                },
                TokenNode::Group(group) => {
                    let group_type = match &group.group_type {
                        Some(t) => Some(t.as_str()),
                        None => inherited_type,
                    };
                    flatten_nodes(&group.children, path.as_str(), group_type, out);
                },
            }
        }
        i = i + 1;
    }
    proof {
        lemma_children_view_len(entries@);
        assert(cv.take(cv.len() as int) =~= cv);
    }
}

proof fn lemma_children_view_len(s: Seq<(String, TokenNode)>)
    ensures
        children_view(s).len() == s.len(),
        forall|i: int| 0 <= i < s.len() ==> #[trigger] children_view(s)[i] == (s[i].0@, node_view(s[i].1)),
    decreases s.len(),
{
    if s.len() > 0 {
        lemma_children_view_len(s.subrange(0, s.len() - 1));
    }
}

impl DesignTokens {
    /// The token tree of a parsed token file: its non-`$` top-level members
    /// that are nodes (a file that is not an object has none).
    pub fn from_json(raw: &Json) -> (r: DesignTokens)
        ensures
            children_view(r.entries@) == match raw@ {
                JsonV::Object(m) => parse_members(m),
                _ => Seq::empty(),
            },
    {
        match raw {
            Json::Object(obj) => DesignTokens { entries: parse_children(obj) },
            _ => DesignTokens { entries: Vec::new() },
        }
    }

    /// The tokens of the tree by dot-separated path, in path order; group
    /// `$type` is inherited by tokens that have none of their own.
    pub fn flatten(&self) -> (r: Vec<FlatToken>)
        ensures
            flat_views(r@) == flat_entries(children_view(self.entries@), Seq::empty(), None, Seq::empty()),
    {
        let mut out: Vec<FlatToken> = Vec::new();
        proof {
            assert(flat_views(out@) =~= Seq::<FlatV>::empty());
            reveal_strlit("");
            assert(""@ =~= Seq::<char>::empty());
        }
        flatten_nodes(&self.entries, "", None, &mut out);
        out
    }
}

} // verus!
