//! Configuration events delivered to the resolver, and the filter that turns
//! raw markup events into them.
//!
//! The raw events come from a generic nested-tag reader; turning a document
//! into raw events is the reader's business and happens outside this crate.
//! Everything from the raw events on — classification of the known tags,
//! removal of invalid nodes and targets, depth bookkeeping, and the
//! aggregation of a target's actions — is verified here.

use vstd::prelude::*;

use crate::error::{view_strings, Error, ErrorModel, TextPosition};
use crate::result::{view_actions, ActionModel, TargetAction};

verus! {

/// One configuration node as it appears on the event stream: the list of
/// interchangeable names identifying it, and the target it names, if any.
#[derive(Debug, PartialEq, Eq)]
pub struct PathNode {
    pub names: Vec<String>,
    pub target: Option<String>,
}

/// The mathematical shape of a [`PathNode`].
pub struct PathNodeModel {
    pub names: Seq<Seq<char>>,
    pub target: Option<Seq<char>>,
}

impl View for PathNode {
    type V = PathNodeModel;

    open spec fn view(&self) -> PathNodeModel {
        PathNodeModel {
            names: view_strings(self.names@),
            target: match &self.target {
                Some(t) => Some(t@),
                None => None,
            },
        }
    }
}

/// Whether one of the node's names is `val`.
pub open spec fn node_has(n: PathNodeModel, val: Seq<char>) -> bool {
    exists|i: int| 0 <= i < n.names.len() && n.names[i] == val
}

/// The display string of a node: its first name, followed by the remaining
/// names in parentheses, comma separated.
pub open spec fn display_of(names: Seq<Seq<char>>) -> Seq<char> {
    if names.len() == 0 {
        Seq::<char>::empty()
    } else if names.len() == 1 {
        names[0]
    } else {
        names[0] + "("@ + display_tail(names, 1)
    }
}

/// The names from index `i` on, comma separated, closed with a parenthesis.
pub open spec fn display_tail(names: Seq<Seq<char>>, i: int) -> Seq<char>
    decreases names.len() - i,
{
    if i + 1 >= names.len() {
        names[i] + ")"@
    } else {
        names[i] + ", "@ + display_tail(names, i + 1)
    }
}

impl PathNode {
    /// Whether one of the node's names is `val`.
    pub fn has(&self, val: &str) -> (r: bool)
        ensures
            r == node_has(self@, val@),
    {
        let mut i: usize = 0;
        while i < self.names.len()
            invariant
                i <= self.names@.len(),
                forall|j: int| 0 <= j < i ==> view_strings(self.names@)[j] != val@,
            decreases self.names@.len() - i,
        {
            if crate::strutil::str_eq(self.names[i].as_str(), val) {
                assert(self@.names[i as int] == val@);
                return true;
            }
            i = i + 1;
        }
        false
    }

    /// Whether the node has no name at all.
    pub fn is_empty(&self) -> (r: bool)
        ensures
            r == (self@.names.len() == 0),
    {
        self.names.is_empty()
    }

    /// Renders the node for listings: the first name, then the remaining
    /// names in parentheses.
    pub fn to_string(&self) -> (r: String)
        ensures
            r@ == display_of(self@.names),
    {
        if self.names.is_empty() {
            String::new()
        } else {
            let mut ret = self.names[0].clone();
            if self.names.len() > 1 {
                ret.append("(");
                let ghost names = self@.names;
                let n = self.names.len();
                let mut i: usize = 1;
                while i < n - 1
                    invariant
                        n == self.names@.len(),
                        1 <= i < self.names@.len(),
                        self.names@.len() >= 2,
                        names == view_strings(self.names@),
                        ret@ + display_tail(names, i as int) == display_of(names),
                    decreases self.names@.len() - i,
                {
                    ret.append(self.names[i].as_str());
                    ret.append(", ");
                    proof {
                        assert(ret@ + display_tail(names, i + 1) =~= display_of(names));
                    }
                    i = i + 1;
                }
                ret.append(self.names[i].as_str());
                ret.append(")");
                proof {
                    assert(ret@ =~= display_of(names));
                }
            }
            ret
        }
    }
}

/// One event of the configuration stream the resolver consumes.
#[derive(Debug, PartialEq, Eq)]
pub enum ConfigEvent {
    /// The paths section opens.
    StartPaths,
    /// A configuration node opens at the given depth (root level is 0).
    StartP { depth: usize, inner: PathNode, position: TextPosition },
    /// The node opened at the given depth closes.
    EndP { depth: usize, position: TextPosition },
    /// The paths section closes.
    EndPaths { position: TextPosition },
    /// The targets section opens.
    StartTargets,
    /// A target definition, with all of its actions already aggregated.
    Target { name: String, actions: Vec<TargetAction> },
    /// The targets section closes.
    EndTargets,
    /// The underlying reader failed; fatal for the resolution in progress.
    XMLReaderError { e: Error },
}

/// The mathematical shape of a [`ConfigEvent`].
pub enum EventModel {
    StartPaths,
    StartP { depth: int, inner: PathNodeModel, position: TextPosition },
    EndP { depth: int, position: TextPosition },
    EndPaths { position: TextPosition },
    StartTargets,
    Target { name: Seq<char>, actions: Seq<ActionModel> },
    EndTargets,
    XMLReaderError { e: ErrorModel },
}

impl View for ConfigEvent {
    type V = EventModel;

    open spec fn view(&self) -> EventModel {
        match self {
            ConfigEvent::StartPaths => EventModel::StartPaths,
            ConfigEvent::StartP { depth, inner, position } => EventModel::StartP {
                depth: *depth as int,
                inner: inner@,
                position: *position,
            },
            ConfigEvent::EndP { depth, position } => EventModel::EndP {
                depth: *depth as int,
                position: *position,
            },
            ConfigEvent::EndPaths { position } => EventModel::EndPaths { position: *position },
            ConfigEvent::StartTargets => EventModel::StartTargets,
            ConfigEvent::Target { name, actions } => EventModel::Target {
                name: name@,
                actions: view_actions(actions@),
            },
            ConfigEvent::EndTargets => EventModel::EndTargets,
            ConfigEvent::XMLReaderError { e } => EventModel::XMLReaderError { e: e@ },
        }
    }
}

/// View of a vector of events as a sequence of event models.
pub open spec fn view_events(s: Seq<ConfigEvent>) -> Seq<EventModel> {
    s.map_values(|e: ConfigEvent| e@)
}

/// One attribute of a raw markup element.
#[derive(Debug, PartialEq, Eq)]
pub struct Attribute {
    pub name: String,
    pub value: String,
}

/// The mathematical shape of an [`Attribute`].
pub struct AttributeModel {
    pub name: Seq<char>,
    pub value: Seq<char>,
}

impl View for Attribute {
    type V = AttributeModel;

    open spec fn view(&self) -> AttributeModel {
        AttributeModel { name: self.name@, value: self.value@ }
    }
}

impl Clone for Attribute {
    /// Copies the attribute; the copy equals the original.
    fn clone(&self) -> (r: Attribute)
        ensures
            r == self,
    {
        Attribute { name: self.name.clone(), value: self.value.clone() }
    }
}

/// One raw event from the generic nested-tag reader. Turning a document into
/// these is the reader's business; everything after is verified.
#[derive(Debug, PartialEq, Eq)]
pub enum SourceEvent {
    /// An element opens, with its attributes.
    StartElement { name: String, attributes: Vec<Attribute>, position: TextPosition },
    /// An element closes.
    EndElement { name: String, position: TextPosition },
    /// The reader failed; nothing after this event is usable.
    ReadError { message: String, position: TextPosition },
}

/// The mathematical shape of a [`SourceEvent`].
pub enum SourceModel {
    StartElement { name: Seq<char>, attributes: Seq<AttributeModel>, position: TextPosition },
    EndElement { name: Seq<char>, position: TextPosition },
    ReadError { message: Seq<char>, position: TextPosition },
}

/// View of a vector of attributes as a sequence of attribute models.
pub open spec fn view_attrs(s: Seq<Attribute>) -> Seq<AttributeModel> {
    s.map_values(|a: Attribute| a@)
}

impl View for SourceEvent {
    type V = SourceModel;

    open spec fn view(&self) -> SourceModel {
        match self {
            SourceEvent::StartElement { name, attributes, position } => SourceModel::StartElement {
                name: name@,
                attributes: view_attrs(attributes@),
                position: *position,
            },
            SourceEvent::EndElement { name, position } => SourceModel::EndElement {
                name: name@,
                position: *position,
            },
            SourceEvent::ReadError { message, position } => SourceModel::ReadError {
                message: message@,
                position: *position,
            },
        }
    }
}

impl Clone for SourceEvent {
    /// Copies the raw event; the copy has the same mathematical shape.
    fn clone(&self) -> (r: SourceEvent)
        ensures
            r@ == self@,
    {
        match self {
            SourceEvent::StartElement { name, attributes, position } => {
                let mut attrs: Vec<Attribute> = Vec::new();
                let mut i: usize = 0;
                while i < attributes.len()
                    invariant
                        i <= attributes@.len(),
                        attrs@ == attributes@.take(i as int),
                    decreases attributes@.len() - i,
                {
                    attrs.push(attributes[i].clone());
                    proof {
                        assert(attrs@ =~= attributes@.take(i + 1));
                    }
                    i = i + 1;
                }
                proof {
                    assert(attributes@.take(attributes@.len() as int) =~= attributes@);
                }
                SourceEvent::StartElement {
                    name: name.clone(),
                    attributes: attrs,
                    position: *position,
                }
            },
            SourceEvent::EndElement { name, position } => SourceEvent::EndElement {
                name: name.clone(),
                position: *position,
            },
            SourceEvent::ReadError { message, position } => SourceEvent::ReadError {
                message: message.clone(),
                position: *position,
            },
        }
    }
}

/// View of a vector of raw events as a sequence of source models.
pub open spec fn view_sources(s: Seq<SourceEvent>) -> Seq<SourceModel> {
    s.map_values(|e: SourceEvent| e@)
}

/// Copies a vector of raw events; the copy has the same mathematical shape.
pub fn clone_source_events(v: &Vec<SourceEvent>) -> (r: Vec<SourceEvent>)
    ensures
        view_sources(r@) == view_sources(v@),
{
    let mut r: Vec<SourceEvent> = Vec::new();
    let mut i: usize = 0;
    while i < v.len()
        invariant
            i <= v@.len(),
            view_sources(r@) == view_sources(v@).take(i as int),
        decreases v@.len() - i,
    {
        let ghost old_r = view_sources(r@);
        r.push(v[i].clone());
        proof {
            assert(view_sources(r@) =~= old_r.push(v@[i as int]@));
            assert(view_sources(v@).take(i + 1) =~= view_sources(v@).take(i as int).push(
                v@[i as int]@,
            ));
        }
        i = i + 1;
    }
    proof {
        assert(view_sources(v@).take(v@.len() as int) =~= view_sources(v@));
    }
    r
}

/// The value of the first attribute with the given name, if any.
pub open spec fn attr_of(attrs: Seq<AttributeModel>, name: Seq<char>) -> Option<Seq<char>>
    decreases attrs.len(),
{
    if attrs.len() == 0 {
        None
    } else if attrs[0].name == name {
        Some(attrs[0].value)
    } else {
        attr_of(attrs.drop_first(), name)
    }
}

/// Finds the value of the first attribute with the given name.
pub fn get_attribute<'a>(attributes: &'a Vec<Attribute>, name: &str) -> (r: Option<&'a String>)
    ensures
        match r {
            Some(v) => attr_of(view_attrs(attributes@), name@) == Some(v@),
            None => attr_of(view_attrs(attributes@), name@) is None,
        },
{
    let mut i: usize = 0;
    proof {
        assert(view_attrs(attributes@).skip(0) =~= view_attrs(attributes@));
    }
    while i < attributes.len()
        invariant
            i <= attributes@.len(),
            attr_of(view_attrs(attributes@), name@) == attr_of(
                view_attrs(attributes@).skip(i as int),
                name@,
            ),
        decreases attributes@.len() - i,
    {
        proof {
            assert(view_attrs(attributes@).skip(i as int)[0] == attributes@[i as int]@);
            assert(view_attrs(attributes@).skip(i as int).drop_first() =~= view_attrs(
                attributes@,
            ).skip(i + 1));
        }
        if crate::strutil::str_eq(attributes[i].name.as_str(), name) {
            return Some(&attributes[i].value);
        }
        i = i + 1;
    }
    proof {
        assert(view_attrs(attributes@).skip(attributes@.len() as int).len() == 0);
    }
    None
}

/// A sequence with consecutive duplicates removed, keeping the first of each
/// run.
pub open spec fn dedup_seq<T>(s: Seq<T>) -> Seq<T>
    decreases s.len(),
{
    if s.len() <= 1 {
        s
    } else if s.last() == s[s.len() - 2] {
        dedup_seq(s.drop_last())
    } else {
        dedup_seq(s.drop_last()).push(s.last())
    }
}

/// A sequence of strings with the empty ones removed.
pub open spec fn keep_nonempty(s: Seq<Seq<char>>) -> Seq<Seq<char>>
    decreases s.len(),
{
    if s.len() == 0 {
        s
    } else if s.last().len() == 0 {
        keep_nonempty(s.drop_last())
    } else {
        keep_nonempty(s.drop_last()).push(s.last())
    }
}

/// Removes consecutive duplicate strings, keeping the first of each run.
fn dedup_strings(v: &Vec<String>) -> (r: Vec<String>)
    ensures
        view_strings(r@) == dedup_seq(view_strings(v@)),
{
    let mut r: Vec<String> = Vec::new();
    let mut i: usize = 0;
    while i < v.len()
        invariant
            i <= v@.len(),
            view_strings(r@) == dedup_seq(view_strings(v@).take(i as int)),
        decreases v@.len() - i,
    {
        proof {
            assert(view_strings(v@).take(i + 1).drop_last() =~= view_strings(v@).take(i as int));
            assert(view_strings(v@).take(i + 1).last() == v@[i as int]@);
        }
        if i == 0 || !crate::strutil::str_eq(v[i].as_str(), v[i - 1].as_str()) {
            let ghost old_r = view_strings(r@);
            r.push(v[i].clone());
            proof {
                assert(view_strings(r@) =~= old_r.push(v@[i as int]@));
                if i > 0 {
                    assert(view_strings(v@).take(i + 1)[i - 1] == v@[i - 1]@);
                }
            }
        } else {
            proof {
                assert(view_strings(v@).take(i + 1)[i - 1] == v@[i - 1]@);
            }
        }
        i = i + 1;
    }
    proof {
        assert(view_strings(v@).take(v@.len() as int) =~= view_strings(v@));
    }
    r
}

/// Removes the strings that are empty, keeping the order.
fn retain_nonempty(v: &Vec<String>) -> (r: Vec<String>)
    ensures
        view_strings(r@) == keep_nonempty(view_strings(v@)),
{
    let mut r: Vec<String> = Vec::new();
    let mut i: usize = 0;
    while i < v.len()
        invariant
            i <= v@.len(),
            view_strings(r@) == keep_nonempty(view_strings(v@).take(i as int)),
        decreases v@.len() - i,
    {
        proof {
            assert(view_strings(v@).take(i + 1).drop_last() =~= view_strings(v@).take(i as int));
            assert(view_strings(v@).take(i + 1).last() == v@[i as int]@);
        }
        if !v[i].as_str().is_empty() {
            let ghost old_r = view_strings(r@);
            r.push(v[i].clone());
            proof {
                assert(view_strings(r@) =~= old_r.push(v@[i as int]@));
            }
        }
        i = i + 1;
    }
    proof {
        assert(view_strings(v@).take(v@.len() as int) =~= view_strings(v@));
    }
    r
}

/// Whether two actions are the same action on the same strings.
fn action_eq(a: &TargetAction, b: &TargetAction) -> (r: bool)
    ensures
        r == (a@ == b@),
{
    match (a, b) {
        (TargetAction::PathAdd(x), TargetAction::PathAdd(y)) => crate::strutil::str_eq(
            x.as_str(),
            y.as_str(),
        ),
        (TargetAction::ScriptExecute(x), TargetAction::ScriptExecute(y)) => crate::strutil::str_eq(
            x.as_str(),
            y.as_str(),
        ),
        (TargetAction::VariableAdd(xv, x), TargetAction::VariableAdd(yv, y)) => {
            let n = crate::strutil::str_eq(xv.as_str(), yv.as_str());
            if n {
                crate::strutil::str_eq(x.as_str(), y.as_str())
            } else {
                false
            }
        },
        _ => false,
    }
}

/// Removes consecutive duplicate actions, keeping the first of each run.
fn dedup_actions(v: &Vec<TargetAction>) -> (r: Vec<TargetAction>)
    ensures
        view_actions(r@) == dedup_seq(view_actions(v@)),
{
    let mut r: Vec<TargetAction> = Vec::new();
    let mut i: usize = 0;
    while i < v.len()
        invariant
            i <= v@.len(),
            view_actions(r@) == dedup_seq(view_actions(v@).take(i as int)),
        decreases v@.len() - i,
    {
        proof {
            assert(view_actions(v@).take(i + 1).drop_last() =~= view_actions(v@).take(i as int));
            assert(view_actions(v@).take(i + 1).last() == v@[i as int]@);
        }
        let differs = if i == 0 {
            true
        } else {
            !action_eq(&v[i], &v[i - 1])
        };
        if differs {
            let ghost old_r = view_actions(r@);
            r.push(v[i].clone());
            proof {
                assert(view_actions(r@) =~= old_r.push(v@[i as int]@));
                if i > 0 {
                    assert(view_actions(v@).take(i + 1)[i - 1] == v@[i - 1]@);
                }
            }
        } else {
            proof {
                assert(view_actions(v@).take(i + 1)[i - 1] == v@[i - 1]@);
            }
        }
        i = i + 1;
    }
    proof {
        assert(view_actions(v@).take(v@.len() as int) =~= view_actions(v@));
    }
    r
}

/// A raw event classified by its tag name and attributes, before the filter
/// decides whether it becomes a configuration event.
enum ConfigEventFull {
    NotCare,
    XMLParseError { e: Error },
    StartPaths { position: TextPosition },
    StartTargets { position: TextPosition },
    StartP { inner: PathNode, position: TextPosition },
    StartTarget { name: Option<String>, position: TextPosition },
    PathAdd { value: String },
    ScriptExecute { value: String },
    VariableAdd { var: String, value: String },
    StartOther { tag_name: String },
    EndPaths { position: TextPosition },
    EndTargets,
    EndP { position: TextPosition },
    EndTarget,
}

/// The mathematical shape of a classified raw event.
pub enum FullModel {
    NotCare,
    XMLParseError { e: ErrorModel },
    StartPaths { position: TextPosition },
    StartTargets { position: TextPosition },
    StartP { inner: PathNodeModel, position: TextPosition },
    StartTarget { name: Option<Seq<char>>, position: TextPosition },
    PathAdd { value: Seq<char> },
    ScriptExecute { value: Seq<char> },
    VariableAdd { var: Seq<char>, value: Seq<char> },
    StartOther { tag_name: Seq<char> },
    EndPaths { position: TextPosition },
    EndTargets,
    EndP { position: TextPosition },
    EndTarget,
}

impl View for ConfigEventFull {
    type V = FullModel;

    closed spec fn view(&self) -> FullModel {
        match self {
            ConfigEventFull::NotCare => FullModel::NotCare,
            ConfigEventFull::XMLParseError { e } => FullModel::XMLParseError { e: e@ },
            ConfigEventFull::StartPaths { position } => FullModel::StartPaths {
                position: *position,
            },
            ConfigEventFull::StartTargets { position } => FullModel::StartTargets {
                position: *position,
            },
            ConfigEventFull::StartP { inner, position } => FullModel::StartP {
                inner: inner@,
                position: *position,
            },
            ConfigEventFull::StartTarget { name, position } => FullModel::StartTarget {
                name: match name {
                    Some(n) => Some(n@),
                    None => None,
                },
                position: *position,
            },
            ConfigEventFull::PathAdd { value } => FullModel::PathAdd { value: value@ },
            ConfigEventFull::ScriptExecute { value } => FullModel::ScriptExecute { value: value@ },
            ConfigEventFull::VariableAdd { var, value } => FullModel::VariableAdd {
                var: var@,
                value: value@,
            },
            ConfigEventFull::StartOther { tag_name } => FullModel::StartOther {
                tag_name: tag_name@,
            },
            ConfigEventFull::EndPaths { position } => FullModel::EndPaths { position: *position },
            ConfigEventFull::EndTargets => FullModel::EndTargets,
            ConfigEventFull::EndP { position } => FullModel::EndP { position: *position },
            ConfigEventFull::EndTarget => FullModel::EndTarget,
        }
    }
}

/// How one raw event is classified: the known tags become their events, the
/// action tags keep only well-formed attributes, anything else is ignored,
/// and a reader error is passed through as a fatal parse failure.
pub open spec fn spec_classify(item: SourceModel) -> FullModel {
    match item {
        SourceModel::StartElement { name, attributes, position } => {
            if name == "paths"@ {
                FullModel::StartPaths { position }
            } else if name == "targets"@ {
                FullModel::StartTargets { position }
            } else if name == "p"@ {
                FullModel::StartP {
                    inner: PathNodeModel {
                        names: match attr_of(attributes, "value"@) {
                            Some(v) => crate::strutil::split_of(v, '|'),
                            None => Seq::<Seq<char>>::empty(),
                        },
                        target: attr_of(attributes, "target"@),
                    },
                    position,
                }
            } else if name == "target"@ {
                FullModel::StartTarget { name: attr_of(attributes, "name"@), position }
            } else if name == "pathadd"@ {
                match attr_of(attributes, "value"@) {
                    Some(v) => FullModel::PathAdd { value: v },
                    None => FullModel::NotCare,
                }
            } else if name == "scriptexec"@ {
                match attr_of(attributes, "path"@) {
                    Some(v) => FullModel::ScriptExecute { value: v },
                    None => FullModel::NotCare,
                }
            } else if name == "varadd"@ {
                match attr_of(attributes, "var"@) {
                    Some(var) => match attr_of(attributes, "value"@) {
                        Some(value) => FullModel::VariableAdd { var, value },
                        None => FullModel::NotCare,
                    },
                    None => FullModel::NotCare,
                }
            } else {
                FullModel::StartOther { tag_name: name }
            }
        },
        SourceModel::EndElement { name, position } => {
            if name == "paths"@ {
                FullModel::EndPaths { position }
            } else if name == "p"@ {
                FullModel::EndP { position }
            } else if name == "targets"@ {
                FullModel::EndTargets
            } else if name == "target"@ {
                FullModel::EndTarget
            } else {
                FullModel::NotCare
            }
        },
        SourceModel::ReadError { message, position } => FullModel::XMLParseError {
            e: ErrorModel::FailParse { message, position },
        },
    }
}

/// Classifies one raw event.
fn classify(item: &SourceEvent) -> (r: ConfigEventFull)
    ensures
        r@ == spec_classify(item@),
{
    match item {
        SourceEvent::StartElement { name, attributes, position } => {
            if crate::strutil::str_eq(name.as_str(), "paths") {
                ConfigEventFull::StartPaths { position: *position }
            } else if crate::strutil::str_eq(name.as_str(), "targets") {
                ConfigEventFull::StartTargets { position: *position }
            } else if crate::strutil::str_eq(name.as_str(), "p") {
                let names = match get_attribute(attributes, "value") {
                    Some(raw_alias) => crate::strutil::split_str(raw_alias.as_str(), '|'),
                    None => Vec::new(),
                };
                let target = match get_attribute(attributes, "target") {
                    Some(t) => Some(t.clone()),
                    None => None,
                };
                proof {
                    assert(view_strings(Seq::<String>::empty()) =~= Seq::<Seq<char>>::empty());
                }
                ConfigEventFull::StartP {
                    inner: PathNode { names, target },
                    position: *position,
                }
            } else if crate::strutil::str_eq(name.as_str(), "target") {
                let tname = match get_attribute(attributes, "name") {
                    Some(n) => Some(n.clone()),
                    None => None,
                };
                ConfigEventFull::StartTarget { name: tname, position: *position }
            } else if crate::strutil::str_eq(name.as_str(), "pathadd") {
                match get_attribute(attributes, "value") {
                    Some(v) => ConfigEventFull::PathAdd { value: v.clone() },
                    None => ConfigEventFull::NotCare,
                }
            } else if crate::strutil::str_eq(name.as_str(), "scriptexec") {
                match get_attribute(attributes, "path") {
                    Some(v) => ConfigEventFull::ScriptExecute { value: v.clone() },
                    None => ConfigEventFull::NotCare,
                }
            } else if crate::strutil::str_eq(name.as_str(), "varadd") {
                match get_attribute(attributes, "var") {
                    Some(var) => match get_attribute(attributes, "value") {
                        Some(value) => ConfigEventFull::VariableAdd {
                            var: var.clone(),
                            value: value.clone(),
                        },
                        None => ConfigEventFull::NotCare,
                    },
                    None => ConfigEventFull::NotCare,
                }
            } else {
                ConfigEventFull::StartOther { tag_name: name.clone() }
            }
        },
        SourceEvent::EndElement { name, position } => {
            if crate::strutil::str_eq(name.as_str(), "paths") {
                ConfigEventFull::EndPaths { position: *position }
            } else if crate::strutil::str_eq(name.as_str(), "p") {
                ConfigEventFull::EndP { position: *position }
            } else if crate::strutil::str_eq(name.as_str(), "targets") {
                ConfigEventFull::EndTargets
            } else if crate::strutil::str_eq(name.as_str(), "target") {
                ConfigEventFull::EndTarget
            } else {
                ConfigEventFull::NotCare
            }
        },
        SourceEvent::ReadError { message, position } => ConfigEventFull::XMLParseError {
            e: Error::FailParse { message: message.clone(), position: *position },
        },
    }
}

/// The filter's bookkeeping between two raw events.
pub struct FilterModel {
    /// A fatal event was delivered; nothing more comes out.
    pub finished: bool,
    /// Inside a paths section.
    pub in_paths: bool,
    /// Inside a targets section.
    pub in_targets: bool,
    /// Nesting depth of the node elements seen inside the paths section.
    pub depth: int,
    /// Inside a node with no usable name; its whole subtree is dropped.
    pub invalid_path: bool,
    /// The depth at which the dropped subtree ends.
    pub valid_after: int,
    /// Inside a target element.
    pub in_target: bool,
    /// Inside a target element with no name; its actions are dropped.
    pub invalid_target: bool,
    /// The name of the target being aggregated.
    pub name_buffer: Seq<char>,
    /// The actions of the target being aggregated.
    pub action_buffer: Seq<ActionModel>,
}

/// The filter's state before anything was read.
pub open spec fn initial_filter() -> FilterModel {
    FilterModel {
        finished: false,
        in_paths: false,
        in_targets: false,
        depth: 0,
        invalid_path: false,
        valid_after: 0,
        in_target: false,
        invalid_target: false,
        name_buffer: Seq::<char>::empty(),
        action_buffer: Seq::<ActionModel>::empty(),
    }
}

/// What the filter does with one classified raw event: the new bookkeeping,
/// and the configuration event delivered, if any. Only the first paths and
/// targets sections are examined; a section element inside its own kind is a
/// format error; nodes with no usable name and targets with no name or no
/// action are dropped whole.
pub open spec fn spec_apply(fs: FilterModel, full: FullModel) -> (FilterModel, Option<EventModel>) {
    match full {
        FullModel::NotCare => (fs, None),
        FullModel::StartOther { tag_name } => (fs, None),
        FullModel::StartPaths { position } => {
            if fs.in_paths {
                (
                    FilterModel { finished: true, ..fs },
                    Some(
                        EventModel::XMLReaderError {
                            e: ErrorModel::InvalidFormat { position, element: "paths"@ },
                        },
                    ),
                )
            } else {
                (
                    FilterModel { in_paths: true, depth: 0, ..fs },
                    Some(EventModel::StartPaths),
                )
            }
        },
        FullModel::StartP { inner, position } => {
            if !fs.in_paths {
                (fs, None)
            } else {
                let depth2 = if fs.depth < usize::MAX as int {
                    fs.depth + 1
                } else {
                    fs.depth
                };
                let names2 = keep_nonempty(dedup_seq(inner.names));
                if names2.len() == 0 {
                    (
                        FilterModel {
                            depth: depth2,
                            invalid_path: true,
                            valid_after: depth2 - 1,
                            ..fs
                        },
                        None,
                    )
                } else if fs.invalid_path {
                    (FilterModel { depth: depth2, ..fs }, None)
                } else {
                    (
                        FilterModel { depth: depth2, ..fs },
                        Some(
                            EventModel::StartP {
                                depth: depth2 - 1,
                                inner: PathNodeModel { names: names2, target: inner.target },
                                position,
                            },
                        ),
                    )
                }
            }
        },
        FullModel::EndP { position } => {
            if !fs.in_paths {
                (fs, None)
            } else {
                let depth2 = if fs.depth > 0 {
                    fs.depth - 1
                } else {
                    0
                };
                let still_invalid = fs.invalid_path && depth2 != fs.valid_after;
                if fs.invalid_path {
                    (FilterModel { depth: depth2, invalid_path: still_invalid, ..fs }, None)
                } else {
                    (
                        FilterModel { depth: depth2, ..fs },
                        Some(EventModel::EndP { depth: depth2, position }),
                    )
                }
            }
        },
        FullModel::EndPaths { position } => (
            FilterModel { in_paths: false, ..fs },
            Some(EventModel::EndPaths { position }),
        ),
        FullModel::StartTargets { position } => {
            if fs.in_targets {
                (
                    FilterModel { finished: true, ..fs },
                    Some(
                        EventModel::XMLReaderError {
                            e: ErrorModel::InvalidFormat { position, element: "targets"@ },
                        },
                    ),
                )
            } else {
                (FilterModel { in_targets: true, ..fs }, Some(EventModel::StartTargets))
            }
        },
        FullModel::StartTarget { name, position } => {
            if fs.in_targets {
                if fs.in_target {
                    (
                        FilterModel { finished: true, ..fs },
                        Some(
                            EventModel::XMLReaderError {
                                e: ErrorModel::InvalidFormat { position, element: "target"@ },
                            },
                        ),
                    )
                } else {
                    match name {
                        Some(n) => (
                            FilterModel {
                                in_target: true,
                                invalid_target: false,
                                name_buffer: n,
                                action_buffer: Seq::<ActionModel>::empty(),
                                ..fs
                            },
                            None,
                        ),
                        None => (
                            FilterModel { in_target: true, invalid_target: true, ..fs },
                            None,
                        ),
                    }
                }
            } else {
                (fs, None)
            }
        },
        FullModel::PathAdd { value } => {
            if fs.in_targets && fs.in_target && !fs.invalid_target && value.len() != 0 {
                (
                    FilterModel {
                        action_buffer: fs.action_buffer.push(ActionModel::PathAdd(value)),
                        ..fs
                    },
                    None,
                )
            } else {
                (fs, None)
            }
        },
        FullModel::ScriptExecute { value } => {
            if fs.in_targets && fs.in_target && !fs.invalid_target && value.len() != 0 {
                (
                    FilterModel {
                        action_buffer: fs.action_buffer.push(ActionModel::ScriptExecute(value)),
                        ..fs
                    },
                    None,
                )
            } else {
                (fs, None)
            }
        },
        FullModel::VariableAdd { var, value } => {
            if fs.in_targets && fs.in_target && !fs.invalid_target && var.len() != 0 && value.len()
                != 0 {
                (
                    FilterModel {
                        action_buffer: fs.action_buffer.push(
                            ActionModel::VariableAdd(var, value),
                        ),
                        ..fs
                    },
                    None,
                )
            } else {
                (fs, None)
            }
        },
        FullModel::EndTarget => {
            if fs.in_targets {
                if !fs.invalid_target {
                    let deduped = dedup_seq(fs.action_buffer);
                    if deduped.len() != 0 {
                        (
                            FilterModel { in_target: false, action_buffer: deduped, ..fs },
                            Some(
                                EventModel::Target {
                                    name: fs.name_buffer,
                                    actions: deduped,
                                },
                            ),
                        )
                    } else {
                        (
                            FilterModel { in_target: false, action_buffer: deduped, ..fs },
                            None,
                        )
                    }
                } else {
                    (FilterModel { in_target: false, ..fs }, None)
                }
            } else {
                (fs, None)
            }
        },
        FullModel::EndTargets => (
            FilterModel { in_targets: false, ..fs },
            Some(EventModel::EndTargets),
        ),
        FullModel::XMLParseError { e } => (
            FilterModel { finished: true, ..fs },
            Some(EventModel::XMLReaderError { e }),
        ),
    }
}

/// One raw event through the filter: classification, then the step.
pub open spec fn fstep(fs: FilterModel, item: SourceModel) -> (FilterModel, Option<EventModel>) {
    spec_apply(fs, spec_classify(item))
}

/// Every configuration event the filter will deliver from this bookkeeping
/// and these raw events on.
pub open spec fn fout(fs: FilterModel, items: Seq<SourceModel>) -> Seq<EventModel>
    decreases items.len(),
{
    if fs.finished || items.len() == 0 {
        Seq::<EventModel>::empty()
    } else {
        let stepped = fstep(fs, items[0]);
        match stepped.1 {
            Some(e) => seq![e] + fout(stepped.0, items.drop_first()),
            None => fout(stepped.0, items.drop_first()),
        }
    }
}

/// What a caller sees of a [`ConfigParser`]: its bookkeeping and the raw
/// events it has not consumed yet.
pub struct FilterView {
    pub state: FilterModel,
    pub remaining: Seq<SourceModel>,
}

/// Turns raw markup events into the configuration event stream the resolver
/// consumes, one event per call to [`ConfigParser::next`].
pub struct ConfigParser {
    items: Vec<SourceEvent>,
    next_finished: bool,
    in_some_paths: bool,
    in_some_targets: bool,
    current_depth: usize,
    in_invalid_path: bool,
    path_become_valid_after_endp_after_depth: usize,
    in_some_target: bool,
    in_invalid_target: bool,
    target_name_buffer: String,
    target_action_buffer: Vec<TargetAction>,
}

impl View for ConfigParser {
    type V = FilterView;

    closed spec fn view(&self) -> FilterView {
        FilterView {
            state: FilterModel {
                finished: self.next_finished,
                in_paths: self.in_some_paths,
                in_targets: self.in_some_targets,
                depth: self.current_depth as int,
                invalid_path: self.in_invalid_path,
                valid_after: self.path_become_valid_after_endp_after_depth as int,
                in_target: self.in_some_target,
                invalid_target: self.in_invalid_target,
                name_buffer: self.target_name_buffer@,
                action_buffer: view_actions(self.target_action_buffer@),
            },
            remaining: view_sources(self.items@),
        }
    }
}

/// View of an optional configuration event.
pub open spec fn view_opt_event(o: Option<ConfigEvent>) -> Option<EventModel> {
    match o {
        Some(e) => Some(e@),
        None => None,
    }
}

impl ConfigParser {
    /// A filter over the given raw events, with fresh bookkeeping.
    pub fn from(items: Vec<SourceEvent>) -> (r: ConfigParser)
        ensures
            r@.state == initial_filter(),
            r@.remaining == view_sources(items@),
    {
        let r = ConfigParser {
            items,
            next_finished: false,
            in_some_paths: false,
            in_some_targets: false,
            current_depth: 0,
            in_invalid_path: false,
            path_become_valid_after_endp_after_depth: 0,
            in_some_target: false,
            in_invalid_target: false,
            target_name_buffer: String::new(),
            target_action_buffer: Vec::new(),
        };
        proof {
            assert(view_actions(Seq::<TargetAction>::empty()) =~= Seq::<ActionModel>::empty());
        }
        r
    }

    /// Applies one classified raw event to the bookkeeping, returning the
    /// configuration event to deliver, if any.
    #[verifier::rlimit(60)]
    fn apply(&mut self, full: ConfigEventFull) -> (out: Option<ConfigEvent>)
        ensures
            final(self).items == old(self).items,
            (final(self)@.state, view_opt_event(out)) == spec_apply(old(self)@.state, full@),
    {
        match full {
            ConfigEventFull::NotCare => None,
            ConfigEventFull::StartOther { tag_name } => None,
            ConfigEventFull::StartPaths { position } => {
                if self.in_some_paths {
                    self.next_finished = true;
                    Some(
                        ConfigEvent::XMLReaderError {
                            e: Error::InvalidFormat {
                                position,
                                element: String::from_str("paths"),
                            },
                        },
                    )
                } else {
                    self.in_some_paths = true;
                    self.current_depth = 0;
                    Some(ConfigEvent::StartPaths)
                }
            },
            ConfigEventFull::StartP { inner, position } => {
                if !self.in_some_paths {
                    None
                } else {
                    // the depth saturates at the machine limit; no raw
                    // stream can nest that deep
                    if self.current_depth < usize::MAX {
                        self.current_depth = self.current_depth + 1;
                    }
                    let deduped = dedup_strings(&inner.names);
                    let names = retain_nonempty(&deduped);
                    if names.len() == 0 {
                        self.in_invalid_path = true;
                        self.path_become_valid_after_endp_after_depth = self.current_depth - 1;
                        None
                    } else if self.in_invalid_path {
                        None
                    } else {
                        Some(
                            ConfigEvent::StartP {
                                depth: self.current_depth - 1,
                                inner: PathNode { names, target: inner.target },
                                position,
                            },
                        )
                    }
                }
            },
            ConfigEventFull::EndP { position } => {
                if !self.in_some_paths {
                    None
                } else {
                    if self.current_depth > 0 {
                        self.current_depth = self.current_depth - 1;
                    }
                    if self.in_invalid_path {
                        if self.current_depth
                            == self.path_become_valid_after_endp_after_depth {
                            self.in_invalid_path = false;
                        }
                        None
                    } else {
                        Some(ConfigEvent::EndP { depth: self.current_depth, position })
                    }
                }
            },
            ConfigEventFull::EndPaths { position } => {
                self.in_some_paths = false;
                Some(ConfigEvent::EndPaths { position })
            },
            ConfigEventFull::StartTargets { position } => {
                if self.in_some_targets {
                    self.next_finished = true;
                    Some(
                        ConfigEvent::XMLReaderError {
                            e: Error::InvalidFormat {
                                position,
                                element: String::from_str("targets"),
                            },
                        },
                    )
                } else {
                    self.in_some_targets = true;
                    Some(ConfigEvent::StartTargets)
                }
            },
            ConfigEventFull::StartTarget { name, position } => {
                if self.in_some_targets {
                    if self.in_some_target {
                        self.next_finished = true;
                        Some(
                            ConfigEvent::XMLReaderError {
                                e: Error::InvalidFormat {
                                    position,
                                    element: String::from_str("target"),
                                },
                            },
                        )
                    } else {
                        self.in_some_target = true;
                        match name {
                            Some(n) => {
                                self.in_invalid_target = false;
                                self.target_action_buffer.clear();
                                self.target_name_buffer = n;
                                proof {
                                    assert(view_actions(Seq::<TargetAction>::empty()) =~= Seq::<
                                        ActionModel,
                                    >::empty());
                                }
                                None
                            },
                            None => {
                                self.in_invalid_target = true;
                                None
                            },
                        }
                    }
                } else {
                    None
                }
            },
            ConfigEventFull::PathAdd { value } => {
                if self.in_some_targets && self.in_some_target && !self.in_invalid_target
                    && !value.as_str().is_empty() {
                    let ghost old_buf = view_actions(self.target_action_buffer@);
                    let ghost v = value@;
                    self.target_action_buffer.push(TargetAction::PathAdd(value));
                    proof {
                        assert(view_actions(self.target_action_buffer@) =~= old_buf.push(
                            ActionModel::PathAdd(v),
                        ));
                    }
                }
                None
            },
            ConfigEventFull::ScriptExecute { value } => {
                if self.in_some_targets && self.in_some_target && !self.in_invalid_target
                    && !value.as_str().is_empty() {
                    let ghost old_buf = view_actions(self.target_action_buffer@);
                    let ghost v = value@;
                    self.target_action_buffer.push(TargetAction::ScriptExecute(value));
                    proof {
                        assert(view_actions(self.target_action_buffer@) =~= old_buf.push(
                            ActionModel::ScriptExecute(v),
                        ));
                    }
                }
                None
            },
            ConfigEventFull::VariableAdd { var, value } => {
                if self.in_some_targets && self.in_some_target && !self.in_invalid_target
                    && !var.as_str().is_empty() && !value.as_str().is_empty() {
                    let ghost old_buf = view_actions(self.target_action_buffer@);
                    let ghost kv = var@;
                    let ghost v = value@;
                    self.target_action_buffer.push(TargetAction::VariableAdd(var, value));
                    proof {
                        assert(view_actions(self.target_action_buffer@) =~= old_buf.push(
                            ActionModel::VariableAdd(kv, v),
                        ));
                    }
                }
                None
            },
            ConfigEventFull::EndTarget => {
                if self.in_some_targets {
                    self.in_some_target = false;
                    if !self.in_invalid_target {
                        let deduped = dedup_actions(&self.target_action_buffer);
                        self.target_action_buffer = deduped;
                        if self.target_action_buffer.len() != 0 {
                            Some(
                                ConfigEvent::Target {
                                    name: self.target_name_buffer.clone(),
                                    actions: crate::result::clone_actions(
                                        &self.target_action_buffer,
                                    ),
                                },
                            )
                        } else {
                            None
                        }
                    } else {
                        None
                    }
                } else {
                    None
                }
            },
            ConfigEventFull::EndTargets => {
                self.in_some_targets = false;
                Some(ConfigEvent::EndTargets)
            },
            ConfigEventFull::XMLParseError { e } => {
                self.next_finished = true;
                Some(ConfigEvent::XMLReaderError { e })
            },
        }
    }

    /// Delivers the next configuration event, consuming raw events until one
    /// comes out; `None` when the raw events are exhausted or a fatal event
    /// was already delivered.
    pub fn next(&mut self) -> (r: Option<ConfigEvent>)
        ensures
            match r {
                None => fout(old(self)@.state, old(self)@.remaining) == Seq::<
                    EventModel,
                >::empty(),
                Some(e) => {
                    &&& fout(old(self)@.state, old(self)@.remaining) == seq![e@] + fout(
                        final(self)@.state,
                        final(self)@.remaining,
                    )
                    &&& final(self)@.remaining.len() < old(self)@.remaining.len()
                },
            },
    {
        if self.next_finished {
            return None;
        }
        loop
            invariant
                !self@.state.finished,
                self@.remaining.len() <= old(self)@.remaining.len(),
                fout(old(self)@.state, old(self)@.remaining) == fout(
                    self@.state,
                    self@.remaining,
                ),
            decreases self@.remaining.len(),
        {
            if self.items.len() == 0 {
                return None;
            }
            let ghost pre_state = self@.state;
            let ghost pre_remaining = self@.remaining;
            let item = self.items.remove(0);
            proof {
                assert(pre_remaining[0] == item@);
                assert(pre_remaining.drop_first() =~= self@.remaining);
            }
            let full = classify(&item);
            let out = self.apply(full);
            match out {
                Some(ev) => {
                    return Some(ev);
                },
                None => {},
            }
        }
    }
}

} // verus!
