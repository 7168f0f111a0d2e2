//! The rules: what each lint looks for and what it says.

use crate::documentation::{
    EVENT_TARGET_DOCUMENTATION, EVENT_TARGET_VALUE_DOCUMENTATION, UNSCOPED_SPAWN_DOCUMENTATION,
};
use crate::docsync::{expected_readme_content, readme_text};
use crate::text::{contains, occurs_at};
use vstd::prelude::*;

verus! {

/// How seriously the host treats a finding of a rule.
#[derive(Clone, Copy, Debug, PartialEq, Eq, Structural)]
pub enum Severity {
    Warn,
    Deny,
}

/// What precedes a rule's name in its help link.
pub const HELP_LINK_PREFIX: &'static str = "https://github.com/leptos-rs/leptos-lints/tree/main/lints/";

/// What follows a rule's name in its help link.
pub const HELP_LINK_SUFFIX: &'static str = "#readme";

/// The words that lead from a rule's explanation to its help link.
pub const HELP_LEAD_IN: &'static str = " For further information visit ";

/// The help link of the rule called `name`.
pub open spec fn help_link_text(name: Seq<char>) -> Seq<char> {
    HELP_LINK_PREFIX@ + name + HELP_LINK_SUFFIX@
}

/// Builds the help link of the rule called `name`.
pub fn help_link(name: &str) -> (link: String)
    ensures
        link@ == help_link_text(name@),
{
    let mut link = HELP_LINK_PREFIX.to_owned();
    link.append(name);
    link.append(HELP_LINK_SUFFIX);
    link
}

/// A help link holds the name it was built from.
pub proof fn lemma_help_link_holds_name(name: Seq<char>)
    ensures
        contains(help_link_text(name), name),
{
    let link = help_link_text(name);
    let at = HELP_LINK_PREFIX@.len() as int;
    assert(link.subrange(at, at + name.len()) =~= name);
    assert(occurs_at(link, name, at));
}

/// Whether `c` may stand in a rule's name: a lower-case letter, a digit or
/// an underscore.
pub open spec fn is_name_char(c: char) -> bool {
    'a' <= c <= 'z' || '0' <= c <= '9' || c == '_'
}

/// Whether `name` can name a rule: lower-case snake case that begins with a
/// letter.
pub open spec fn is_rule_name(name: Seq<char>) -> bool {
    &&& name.len() > 0
    &&& 'a' <= name[0] <= 'z'
    &&& forall|i: int| 0 <= i < name.len() ==> is_name_char(#[trigger] name[i])
}

/// One detectable pattern: the function it looks for and what it reports.
#[derive(Debug, PartialEq, Eq)]
pub struct Rule {
    /// The rule's identity, which its help link embeds.
    pub name: String,
    /// The severity it is registered with.
    pub severity: Severity,
    /// One line on what the rule does.
    pub summary: String,
    /// The long-form documentation that its reference document carries.
    pub documentation: String,
    /// The simple name of the function whose calls it reports.
    pub target: String,
    /// The path under which that function is documented.
    pub canonical_path: String,
    /// What is wrong with a call, or what to write instead.
    pub explanation: String,
}

impl Rule {
    /// The invariant of a rule: a snake-case name and a target to look for.
    pub open spec fn well_formed(&self) -> bool {
        &&& is_rule_name(self.name@)
        &&& self.target@.len() > 0
    }

    /// The primary message of a finding.
    pub open spec fn message_text(&self) -> Seq<char> {
        "use of `"@ + self.canonical_path@ + "`"@
    }

    /// The help text of a finding: the explanation, then the link that the
    /// rule's own name gives.
    pub open spec fn help_text(&self) -> Seq<char> {
        self.explanation@ + HELP_LEAD_IN@ + help_link_text(self.name@)
    }

    /// Builds the primary message of a finding.
    pub fn message(&self) -> (text: String)
        ensures
            text@ == self.message_text(),
    {
        let mut text = "use of `".to_owned();
        text.append(self.canonical_path.as_str());
        text.append("`");
        text
    }

    /// Builds the rule's reference document: the fixed header, the rule's
    /// name as heading, and its documentation.
    pub fn reference_document(&self) -> (document: String)
        ensures
            document@ == readme_text(self.name@, self.documentation@),
    {
        expected_readme_content(self.name.as_str(), self.documentation.as_str())
    }

    /// Builds the help text of a finding.
    pub fn help(&self) -> (text: String)
        ensures
            text@ == self.help_text(),
    {
        let link = help_link(self.name.as_str());
        let mut text = self.explanation.clone();
        text.append(HELP_LEAD_IN);
        text.append(link.as_str());
        text
    }
}

/// The help text of a rule holds the rule's help link, and so its name.
pub proof fn lemma_help_holds_link(rule: Rule)
    ensures
        contains(rule.help_text(), help_link_text(rule.name@)),
        contains(rule.help_text(), rule.name@),
{
    let help = rule.help_text();
    let link = help_link_text(rule.name@);
    let at = (rule.explanation@ + HELP_LEAD_IN@).len() as int;
    assert(help.subrange(at, at + link.len()) =~= link);
    assert(occurs_at(help, link, at));
    let inner = at + HELP_LINK_PREFIX@.len();
    assert(help.subrange(inner, inner + rule.name@.len()) =~= rule.name@);
    assert(occurs_at(help, rule.name@, inner));
}

/// The fixed table of rules.
#[derive(Debug)]
pub struct Registry {
    rules: Vec<Rule>,
}

/// Whether `rules` can be a registry's table: every rule is well formed and
/// no two share a name.
pub open spec fn is_rule_table(rules: Seq<Rule>) -> bool {
    &&& forall|i: int| 0 <= i < rules.len() ==> (#[trigger] rules[i]).well_formed()
    &&& forall|i: int, j: int|
        0 <= i < j < rules.len() ==> (#[trigger] rules[i]).name@ != (#[trigger] rules[j]).name@
}

impl Registry {
    /// The rules, in the order in which they are consulted.
    pub closed spec fn view(&self) -> Seq<Rule> {
        self.rules@
    }

    #[verifier::type_invariant]
    spec fn table_invariant(&self) -> bool {
        is_rule_table(self.rules@)
    }

    /// The table of this system: the two `event_target` rules, which warn,
    /// and the unscoped spawn rule, which denies.
    pub fn standard() -> (registry: Registry)
        ensures
            is_rule_table(registry@),
            registry@.len() == 3,
            registry@[0].name@ == "leptos_event_target"@,
            registry@[0].severity == Severity::Warn,
            registry@[0].summary@ == "Warn about usages of `leptos::prelude::event_target`"@,
            registry@[0].documentation@ == EVENT_TARGET_DOCUMENTATION@,
            registry@[0].target@ == "event_target"@,
            registry@[0].canonical_path@ == "leptos::prelude::event_target"@,
            registry@[0].explanation@
                == "this function can panic at run-time if the target doesn't have an event."@,
            registry@[1].name@ == "leptos_event_target_value"@,
            registry@[1].severity == Severity::Warn,
            registry@[1].summary@
                == "Warn about usages of `leptos::prelude::event_target_value`"@,
            registry@[1].documentation@ == EVENT_TARGET_VALUE_DOCUMENTATION@,
            registry@[1].target@ == "event_target_value"@,
            registry@[1].canonical_path@ == "leptos::prelude::event_target_value"@,
            registry@[1].explanation@
                == "this function can panic at run-time if the target doesn't have an event."@,
            registry@[2].name@ == "leptos_unscoped_spawn"@,
            registry@[2].severity == Severity::Deny,
            registry@[2].summary@ == "Forbids the use of `leptos::task::spawn_local`"@,
            registry@[2].documentation@ == UNSCOPED_SPAWN_DOCUMENTATION@,
            registry@[2].target@ == "spawn_local"@,
            registry@[2].canonical_path@ == "leptos::task::spawn_local"@,
            registry@[2].explanation@ == "prefer `leptos::task::spawn_local_scoped`."@,
    {
        let event_target = Rule {
            name: "leptos_event_target".to_owned(),
            severity: Severity::Warn,
            summary: "Warn about usages of `leptos::prelude::event_target`".to_owned(),
            documentation: EVENT_TARGET_DOCUMENTATION.to_owned(),
            target: "event_target".to_owned(),
            canonical_path: "leptos::prelude::event_target".to_owned(),
            explanation: "this function can panic at run-time if the target doesn't have an event.".to_owned(),
        };
        let event_target_value = Rule {
            name: "leptos_event_target_value".to_owned(),
            severity: Severity::Warn,
            summary: "Warn about usages of `leptos::prelude::event_target_value`".to_owned(),
            documentation: EVENT_TARGET_VALUE_DOCUMENTATION.to_owned(),
            target: "event_target_value".to_owned(),
            canonical_path: "leptos::prelude::event_target_value".to_owned(),
            explanation: "this function can panic at run-time if the target doesn't have an event.".to_owned(),
        };
        let unscoped_spawn = Rule {
            name: "leptos_unscoped_spawn".to_owned(),
            severity: Severity::Deny,
            summary: "Forbids the use of `leptos::task::spawn_local`".to_owned(),
            documentation: UNSCOPED_SPAWN_DOCUMENTATION.to_owned(),
            target: "spawn_local".to_owned(),
            canonical_path: "leptos::task::spawn_local".to_owned(),
            explanation: "prefer `leptos::task::spawn_local_scoped`.".to_owned(),
        };
        proof {
            reveal_strlit("leptos_event_target");
            reveal_strlit("leptos_event_target_value");
            reveal_strlit("leptos_unscoped_spawn");
            reveal_strlit("event_target");
            reveal_strlit("event_target_value");
            reveal_strlit("spawn_local");
            assert(event_target.well_formed());
            assert(event_target_value.well_formed());
            assert(unscoped_spawn.well_formed());
        }
        let mut rules: Vec<Rule> = Vec::new();
        rules.push(event_target);
        rules.push(event_target_value);
        rules.push(unscoped_spawn);
        Registry { rules }
    }

    /// Looks up the rule called `name`. No two rules share a name, so at
    /// most one answers to it.
    pub fn find(&self, name: &str) -> (found: Option<&Rule>)
        ensures
            match found {
                Some(rule) => rule.name@ == name@ && rule.well_formed() && exists|i: int|
                    0 <= i < self@.len() && self@[i] == *rule,
                None => forall|i: int| 0 <= i < self@.len() ==> (#[trigger] self@[i]).name@ != name@,
            },
    {
        proof {
            use_type_invariant(self);
        }
        let wanted = name.to_owned();
        let mut i: usize = 0;
        while i < self.rules.len()
            invariant
                i <= self.rules@.len(),
                wanted@ == name@,
                is_rule_table(self.rules@),
                forall|j: int| 0 <= j < i ==> (#[trigger] self.rules@[j]).name@ != name@,
            decreases self.rules@.len() - i,
        {
            if self.rules[i].name == wanted {
                return Some(&self.rules[i]);
            }
            i += 1;
        }
        None
    }

    /// The number of rules.
    pub fn len(&self) -> (n: usize)
        ensures
            n == self@.len(),
    {
        self.rules.len()
    }

    /// The rule at `index`.
    pub fn rule(&self, index: usize) -> (rule: &Rule)
        requires
            index < self@.len(),
        ensures
            *rule == self@[index as int],
            rule.well_formed(),
    {
        proof {
            use_type_invariant(self);
        }
        &self.rules[index]
    }
}

} // verus!
