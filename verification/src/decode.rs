//! Decoding the text of a project file: the JSON is parsed by `serde_json`,
//! and the value that comes back is held against the shape of a project
//! description.

use crate::descriptor::{ProjectJson, ProjectView, Target};
use crate::json::{
    error_message, error_text, json_of, keys_of, member, member_of, object_keys, parse, text_in,
    text_of,
};
use crate::report::{Decoded, DecodedView};
use vstd::prelude::*;
use vstd::string::StringExecFns;

verus! {

/// Why a JSON value is no project description.
#[derive(Debug, Clone, PartialEq, Eq)]
pub enum SchemaError {
    /// The document is no object.
    NotAnObject,
    /// The document has no `name`.
    NameMissing,
    /// The `name` is no string.
    NameNotText,
    /// The `targets` are no object.
    TargetsNotAnObject,
    /// The target of this name is no object.
    TargetNotAnObject { target: String },
    /// The `configurations` of the target of this name are no object.
    ConfigurationsNotAnObject { target: String },
}

/// A schema error with its target name as a plain sequence.
pub enum SchemaErrorView {
    NotAnObject,
    NameMissing,
    NameNotText,
    TargetsNotAnObject,
    TargetNotAnObject { target: Seq<char> },
    ConfigurationsNotAnObject { target: Seq<char> },
}

impl View for SchemaError {
    type V = SchemaErrorView;

    open spec fn view(&self) -> SchemaErrorView {
        match self {
            SchemaError::NotAnObject => SchemaErrorView::NotAnObject,
            SchemaError::NameMissing => SchemaErrorView::NameMissing,
            SchemaError::NameNotText => SchemaErrorView::NameNotText,
            SchemaError::TargetsNotAnObject => SchemaErrorView::TargetsNotAnObject,
            SchemaError::TargetNotAnObject { target } => SchemaErrorView::TargetNotAnObject {
                target: target@,
            },
            SchemaError::ConfigurationsNotAnObject {
                target,
            } => SchemaErrorView::ConfigurationsNotAnObject { target: target@ },
        }
    }
}

/// The text of a schema error.
pub open spec fn schema_message(error: SchemaErrorView) -> Seq<char> {
    match error {
        SchemaErrorView::NotAnObject => "expected a JSON object"@,
        SchemaErrorView::NameMissing => "missing field `name`"@,
        SchemaErrorView::NameNotText => "field `name` is not a string"@,
        SchemaErrorView::TargetsNotAnObject => "field `targets` is not an object"@,
        SchemaErrorView::TargetNotAnObject { target } => "target `"@ + target
            + "` is not an object"@,
        SchemaErrorView::ConfigurationsNotAnObject { target } =>
            "field `configurations` of target `"@ + target + "` is not an object"@,
    }
}

/// The configuration names of the target `name`, decoded from `value`: the
/// keys of its `configurations`, and none where it has no such member.
pub open spec fn target_in(name: Seq<char>, value: serde_json::Value) -> Result<
    Seq<Seq<char>>,
    SchemaErrorView,
> {
    if object_keys(value) is None {
        Err(SchemaErrorView::TargetNotAnObject { target: name })
    } else {
        match member(value, "configurations"@) {
            None => Ok(Seq::empty()),
            Some(configurations) => match object_keys(configurations) {
                Some(names) => Ok(names),
                None => Err(SchemaErrorView::ConfigurationsNotAnObject { target: name }),
            },
        }
    }
}

/// The first `count` targets of the object `holder`, whose keys are `names`,
/// or the error of the first among them that is no target.
pub open spec fn targets_in(holder: serde_json::Value, names: Seq<Seq<char>>, count: nat) -> Result<
    Seq<(Seq<char>, Seq<Seq<char>>)>,
    SchemaErrorView,
>
    decreases count,
{
    if count == 0 || count > names.len() {
        Ok(Seq::empty())
    } else {
        let name = names[count - 1];
        match targets_in(holder, names, (count - 1) as nat) {
            Err(error) => Err(error),
            Ok(before) => match member(holder, name) {
                None => Err(SchemaErrorView::TargetNotAnObject { target: name }),
                Some(value) => match target_in(name, value) {
                    Ok(configurations) => Ok(before.push((name, configurations))),
                    Err(error) => Err(error),
                },
            },
        }
    }
}

/// The project that a JSON value describes: an object with a string under
/// `name` and, where it has `targets`, an object of targets under it. Other
/// members are not looked at.
pub open spec fn project_in(document: serde_json::Value) -> Result<ProjectView, SchemaErrorView> {
    if object_keys(document) is None {
        Err(SchemaErrorView::NotAnObject)
    } else {
        match member(document, "name"@) {
            None => Err(SchemaErrorView::NameMissing),
            Some(name_value) => match text_of(name_value) {
                None => Err(SchemaErrorView::NameNotText),
                Some(name) => match member(document, "targets"@) {
                    None => Ok(ProjectView { name, targets: Seq::empty() }),
                    Some(holder) => match object_keys(holder) {
                        None => Err(SchemaErrorView::TargetsNotAnObject),
                        Some(names) => match targets_in(holder, names, names.len()) {
                            Ok(targets) => Ok(ProjectView { name, targets }),
                            Err(error) => Err(error),
                        },
                    },
                },
            },
        }
    }
}

/// What decoding a text gives: the project that its JSON describes, or the
/// text of the error, be it of the JSON or of the shape.
pub open spec fn decoded(text: Seq<char>) -> DecodedView {
    match json_of(text) {
        Err(error) => DecodedView::Malformed(error_text(error)),
        Ok(document) => match project_in(document) {
            Ok(project) => DecodedView::Project(project),
            Err(error) => DecodedView::Malformed(schema_message(error)),
        },
    }
}

proof fn lemma_first_error_stays(
    holder: serde_json::Value,
    names: Seq<Seq<char>>,
    failed: nat,
    count: nat,
)
    requires
        failed <= count <= names.len(),
        targets_in(holder, names, failed) is Err,
    ensures
        targets_in(holder, names, count) == targets_in(holder, names, failed),
    decreases count,
{
    if failed < count {
        lemma_first_error_stays(holder, names, failed, (count - 1) as nat);
    }
}

impl SchemaError {
    /// The text of this error.
    pub fn message(&self) -> (text: String)
        ensures
            text@ == schema_message(self@),
    {
        match self {
            SchemaError::NotAnObject => String::from_str("expected a JSON object"),
            SchemaError::NameMissing => String::from_str("missing field `name`"),
            SchemaError::NameNotText => String::from_str("field `name` is not a string"),
            SchemaError::TargetsNotAnObject => String::from_str("field `targets` is not an object"),
            SchemaError::TargetNotAnObject { target } => {
                let mut text = String::from_str("target `");
                text.append(target.as_str());
                text.append("` is not an object");
                text
            },
            SchemaError::ConfigurationsNotAnObject { target } => {
                let mut text = String::from_str("field `configurations` of target `");
                text.append(target.as_str());
                text.append("` is not an object");
                text
            },
        }
    }
}

/// Decodes the target `name` from a JSON value.
pub fn decode_target(name: &String, value: &serde_json::Value) -> (target: Result<
    Target,
    SchemaError,
>)
    ensures
        match target {
            Ok(t) => target_in(name@, *value) == Ok::<Seq<Seq<char>>, SchemaErrorView>(t@)
                && t@.no_duplicates(),
            Err(e) => target_in(name@, *value) == Err::<Seq<Seq<char>>, SchemaErrorView>(e@),
        },
{
    if keys_of(value).is_none() {
        return Err(SchemaError::TargetNotAnObject { target: name.clone() });
    }
    match member_of(value, "configurations") {
        None => Ok(Target::new()),
        Some(configurations) => match keys_of(configurations) {
            Some(names) => Ok(Target { configurations: names }),
            None => Err(SchemaError::ConfigurationsNotAnObject { target: name.clone() }),
        },
    }
}

/// Decodes a project from a JSON value. The project that comes back is a
/// mapping: no target name occurs twice in it, and no configuration name
/// within a target.
pub fn decode_value(document: &serde_json::Value) -> (project: Result<ProjectJson, SchemaError>)
    ensures
        match project {
            Ok(p) => project_in(*document) == Ok::<ProjectView, SchemaErrorView>(p@)
                && p@.well_formed(),
            Err(e) => project_in(*document) == Err::<ProjectView, SchemaErrorView>(e@),
        },
{
    if keys_of(document).is_none() {
        return Err(SchemaError::NotAnObject);
    }
    let name = match member_of(document, "name") {
        None => {
            return Err(SchemaError::NameMissing);
        },
        Some(value) => match text_in(value) {
            None => {
                return Err(SchemaError::NameNotText);
            },
            Some(name) => name,
        },
    };
    let holder = match member_of(document, "targets") {
        None => {
            return Ok(ProjectJson::new(name));
        },
        Some(holder) => holder,
    };
    let names = match keys_of(holder) {
        None => {
            return Err(SchemaError::TargetsNotAnObject);
        },
        Some(names) => names,
    };
    let mut targets: Vec<(String, Target)> = Vec::new();
    let mut i: usize = 0;
    let ghost keys = names.deep_view();
    let ghost mut done = Seq::<(Seq<char>, Seq<Seq<char>>)>::empty();
    while i < names.len()
        invariant
            i <= names.len(),
            keys == names.deep_view(),
            keys.no_duplicates(),
            project_in(*document) == match targets_in(*holder, keys, keys.len()) {
                Ok(all) => Ok::<ProjectView, SchemaErrorView>(
                    ProjectView { name: name@, targets: all },
                ),
                Err(error) => Err(error),
            },
            targets.len() == i,
            done.len() == i,
            targets_in(*holder, keys, i as nat) == Ok::<
                Seq<(Seq<char>, Seq<Seq<char>>)>,
                SchemaErrorView,
            >(done),
            forall|k: int|
                0 <= k < i ==> #[trigger] done[k] == (targets@[k].0@, targets@[k].1@) && done[k].0
                    == keys[k] && done[k].1.no_duplicates(),
        decreases names.len() - i,
    {
        let target_name = names[i].clone();
        assert(target_name@ == keys[i as int]);
        let decoded_target = match member_of(holder, target_name.as_str()) {
            None => Err(SchemaError::TargetNotAnObject { target: target_name.clone() }),
            Some(value) => decode_target(&target_name, value),
        };
        match decoded_target {
            Err(error) => {
                proof {
                    assert(targets_in(*holder, keys, (i + 1) as nat) == Err::<
                        Seq<(Seq<char>, Seq<Seq<char>>)>,
                        SchemaErrorView,
                    >(error@));
                    lemma_first_error_stays(*holder, keys, (i + 1) as nat, keys.len());
                }
                return Err(error);
            },
            Ok(target) => {
                proof {
                    done = done.push((keys[i as int], target@));
                }
                targets.push((target_name, target));
            },
        }
        i += 1;
    }
    let project = ProjectJson { name, targets };
    proof {
        assert(project@.targets =~= done);
        assert forall|a: int, b: int| 0 <= a < b < project@.targets.len() implies (
        #[trigger] project@.targets[a]).0 != (#[trigger] project@.targets[b]).0 by {
            assert(done[a].0 == keys[a]);
            assert(done[b].0 == keys[b]);
        }
        assert forall|k: int| 0 <= k < project@.targets.len() implies (
        #[trigger] project@.targets[k]).1.no_duplicates() by {
            assert(done[k].1.no_duplicates());
        }
    }
    Ok(project)
}

/// Decodes a project from a parsed text: the project where the text was
/// JSON of the right shape, else the text of the error.
pub fn decode_parsed(parsed: Result<serde_json::Value, serde_json::Error>) -> (outcome: Decoded)
    ensures
        outcome@ == match parsed {
            Err(error) => DecodedView::Malformed(error_text(error)),
            Ok(document) => match project_in(document) {
                Ok(project) => DecodedView::Project(project),
                Err(error) => DecodedView::Malformed(schema_message(error)),
            },
        },
{
    match parsed {
        Err(error) => Decoded::Malformed(error_message(&error)),
        Ok(document) => match decode_value(&document) {
            Ok(project) => Decoded::Project(project),
            Err(error) => Decoded::Malformed(error.message()),
        },
    }
}

/// Decodes the text of a project file.
pub fn decode_project(content: &str) -> (outcome: Decoded)
    ensures
        outcome@ == decoded(content@),
{
    decode_parsed(parse(content))
}

} // verus!
