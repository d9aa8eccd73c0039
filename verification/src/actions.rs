//! Workflows in the format of hosted action runners.

use crate::maps::{Duplicate, NameMap, StringMap};
use crate::strings::{cat3, copy_opt, list_has};
use crate::text::{opt_slice, opt_text, texts};
use vstd::prelude::*;
use vstd::string::*;

verus! {

/// An event that starts a workflow, on every branch or on those listed.
#[derive(Debug)]
pub struct ActionEvent {
    pub name: String,
    pub branches: Vec<String>,
}

/// What holds for every `run` step where the step itself says nothing.
#[derive(Debug)]
pub struct RunDefaults {
    pub shell: Option<String>,
    pub working_directory: Option<String>,
}

/// A container that a job or a service runs in.
#[derive(Debug)]
pub struct ActionContainer {
    pub image: String,
    pub options: Option<String>,
}

#[verifier::ext_equal]
pub struct ActionContainerView {
    pub image: Seq<char>,
    pub options: Option<Seq<char>>,
}

impl View for ActionContainer {
    type V = ActionContainerView;

    open spec fn view(&self) -> ActionContainerView {
        ActionContainerView { image: self.image@, options: opt_text(self.options) }
    }
}

impl Duplicate for ActionContainer {
    fn duplicate(&self) -> (r: Self) {
        ActionContainer { image: self.image.clone(), options: copy_opt(&self.options) }
    }
}

/// A step that runs a script.
pub struct ActionRunStep {
    pub name: String,
    pub run: String,
    pub shell: Option<String>,
    pub env: StringMap,
    pub if_condition: Option<String>,
    pub working_directory: Option<String>,
    pub continue_on_error: bool,
    pub timeout_minutes: Option<u64>,
}

/// A step that uses an action.
pub struct ActionUsesStep {
    pub name: String,
    pub uses: String,
    pub with: StringMap,
    pub env: StringMap,
    pub if_condition: Option<String>,
    pub working_directory: Option<String>,
    pub continue_on_error: bool,
}

/// A step of a job.
pub enum ActionStep {
    Run(ActionRunStep),
    Uses(ActionUsesStep),
}

/// A job of a workflow.
pub struct ActionsJob {
    pub id: String,
    pub name: String,
    pub needs: Vec<String>,
    pub if_condition: Option<String>,
    pub env: StringMap,
    pub defaults: RunDefaults,
    pub container: Option<ActionContainer>,
    pub services: NameMap<ActionContainer>,
    pub matrix: Vec<StringMap>,
    pub steps: Vec<ActionStep>,
    pub continue_on_error: bool,
}

/// The host that a workflow was written for.
#[derive(Clone, Copy, Debug, PartialEq, Eq, Structural)]
pub enum ActionsProvider {
    GitHub,
    Gitea,
}

/// A workflow of jobs.
pub struct ActionsWorkflow {
    pub name: String,
    pub provider: ActionsProvider,
    pub events: Vec<ActionEvent>,
    pub env: StringMap,
    pub defaults: RunDefaults,
    pub jobs: Vec<ActionsJob>,
}

/// Whether an event on a branch is one that starts the workflow.
pub open spec fn event_fits(e: ActionEvent, events: Seq<Seq<char>>, branch: Option<Seq<char>>) -> bool {
    events.contains(e.name@) && (e.branches@.len() == 0 || match branch {
        Some(b) => texts(e.branches@).contains(b),
        None => true,
    })
}

/// The first of the events that starts the workflow.
pub open spec fn starting_event(all: Seq<ActionEvent>, events: Seq<Seq<char>>, branch: Option<Seq<char>>) -> Option<
    Seq<char>,
>
    decreases all.len(),
{
    if all.len() == 0 {
        None
    } else if starting_event(all.drop_last(), events, branch) is Some {
        starting_event(all.drop_last(), events, branch)
    } else if event_fits(all.last(), events, branch) {
        Some(all.last().name@)
    } else {
        None
    }
}

/// Why an event starts a workflow.
pub open spec fn action_reason(name: Seq<char>) -> Seq<char> {
    "actions trigger `"@ + name + "`"@
}

/// Where the actions of a workflow are fetched from: the host that it was written for.
pub open spec fn base_of(provider: ActionsProvider) -> Seq<char> {
    match provider {
        ActionsProvider::GitHub => "https://github.com"@,
        ActionsProvider::Gitea => "https://gitea.com"@,
    }
}

impl ActionsWorkflow {
    /// Where the actions of the workflow are fetched from.
    pub fn remote_base(&self) -> (r: &'static str)
        ensures
            r@ == base_of(self.provider),
    {
        match self.provider {
            ActionsProvider::GitHub => "https://github.com",
            ActionsProvider::Gitea => "https://gitea.com",
        }
    }

    /// Why one of the events starts the workflow on a branch, where one does.
    pub fn matches_event(&self, events: &[String], branch: Option<&str>) -> (r: Option<String>)
        ensures
            opt_text(r) == match starting_event(self.events@, texts(events@), opt_slice(branch)) {
                Some(name) => Some(action_reason(name)),
                None => None,
            },
    {
        let ghost wanted = texts(events@);
        let ghost all = self.events@;
        let mut i: usize = 0;
        while i < self.events.len()
            invariant
                i <= self.events@.len(),
                all == self.events@,
                wanted == texts(events@),
                starting_event(all.take(i as int), wanted, opt_slice(branch)) is None,
            decreases self.events.len() - i,
        {
            assert(all.take(i + 1).drop_last() =~= all.take(i as int));
            let e = &self.events[i];
            let on_branch = e.branches.is_empty() || match branch {
                Some(b) => list_has(e.branches.as_slice(), b),
                None => true,
            };
            if list_has(events, e.name.as_str()) && on_branch {
                proof {
                    lemma_starting_event_stays(all, wanted, opt_slice(branch), i + 1);
                }
                return Some(cat3("actions trigger `", e.name.as_str(), "`"));
            }
            i += 1;
        }
        assert(all.take(i as int) =~= all);
        None
    }
}

proof fn lemma_starting_event_stays(
    all: Seq<ActionEvent>,
    events: Seq<Seq<char>>,
    branch: Option<Seq<char>>,
    n: int,
)
    requires
        0 <= n <= all.len(),
        starting_event(all.take(n), events, branch) is Some,
    ensures
        starting_event(all, events, branch) == starting_event(all.take(n), events, branch),
    decreases all.len(),
{
    if n == all.len() {
        assert(all.take(n) =~= all);
    } else {
        assert(all.drop_last().take(n) =~= all.take(n));
        lemma_starting_event_stays(all.drop_last(), events, branch, n);
    }
}

/// A hosted workflow starts exactly where it lists one of the events and that entry admits
/// the branch: one without branches admits all, and an unknown branch is not held back. The
/// event that it starts for is one that was asked about.
pub proof fn law_a_listed_event_starts_the_workflow(all: Seq<ActionEvent>, events: Seq<Seq<char>>, branch: Option<Seq<char>>)
    ensures
        starting_event(all, events, branch) is Some <==> exists|i: int|
            0 <= i < all.len() && events.contains((#[trigger] all[i]).name@) && (all[i].branches@.len() == 0 || branch
                is None || texts(all[i].branches@).contains(branch->0)),
        starting_event(all, events, branch) matches Some(name) ==> events.contains(name),
    decreases all.len(),
{
    if all.len() > 0 {
        let t = all.drop_last();
        law_a_listed_event_starts_the_workflow(t, events, branch);
        if starting_event(t, events, branch) is Some {
            let i = choose|i: int|
                0 <= i < t.len() && events.contains((#[trigger] t[i]).name@) && (t[i].branches@.len() == 0 || branch
                    is None || texts(t[i].branches@).contains(branch->0));
            assert(all[i] == t[i]);
        } else if starting_event(all, events, branch) is Some {
            let e = all[all.len() - 1];
            assert(events.contains(e.name@));
        }
        if exists|i: int|
            0 <= i < all.len() && events.contains((#[trigger] all[i]).name@) && (all[i].branches@.len() == 0 || branch
                is None || texts(all[i].branches@).contains(branch->0)) {
            let i = choose|i: int|
                0 <= i < all.len() && events.contains((#[trigger] all[i]).name@) && (all[i].branches@.len() == 0
                    || branch is None || texts(all[i].branches@).contains(branch->0));
            if i < t.len() {
                assert(t[i] == all[i]);
            }
        }
    }
}

/// Actions of each runner are fetched from its own host, over a secure connection.
pub proof fn law_actions_come_from_their_host()
    ensures
        base_of(ActionsProvider::GitHub) == "https://"@ + "github.com"@,
        base_of(ActionsProvider::Gitea) == "https://"@ + "gitea.com"@,
{
    reveal_strlit("https://");
    reveal_strlit("github.com");
    reveal_strlit("gitea.com");
    reveal_strlit("https://github.com");
    reveal_strlit("https://gitea.com");
    assert("https://github.com"@ =~= "https://"@ + "github.com"@);
    assert("https://gitea.com"@ =~= "https://"@ + "gitea.com"@);
}

} // verus!
