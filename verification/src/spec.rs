//! A task spec's agents, steps and commands, and the project config that fills it in.
use vstd::prelude::*;

use crate::keyed::KeyedMap;
use crate::text::push_str;
use crate::wait::{json_string, push_json};

verus! {

/// How an agent is handed its prompt.
#[derive(Clone, Copy, Debug, PartialEq, Eq, Structural)]
pub enum PromptMode {
    Arg,
    Stdin,
}

impl Default for PromptMode {
    fn default() -> (r: PromptMode)
        ensures
            r == PromptMode::Arg,
    {
        PromptMode::Arg
    }
}

/// How one agent is run.
#[derive(Clone, Debug)]
pub struct AgentConfig {
    pub binary: Option<String>,
    pub args: Vec<String>,
    pub prompt: PromptMode,
}

/// One step of a task.
#[derive(Clone, Debug)]
pub enum TaskStep {
    Agent { agent: String, task: String },
    Command { command: String },
}

/// A named command: either its command line alone, or a table with `run`.
#[derive(Clone, Debug)]
pub enum CommandConfig {
    Short(String),
    Full { run: String },
}

/// The command line a command config runs.
pub fn command_config_run(config: &CommandConfig) -> (r: &str)
    ensures
        r@ == match config {
            CommandConfig::Short(run) => run@,
            CommandConfig::Full { run } => run@,
        },
{
    match config {
        CommandConfig::Short(run) => run.as_str(),
        CommandConfig::Full { run } => run.as_str(),
    }
}

/// A task: its goal, where it runs, its agents, its steps and its named commands.
pub struct TaskSpec {
    pub goal: String,
    pub workspace: Option<String>,
    pub agents: KeyedMap<AgentConfig>,
    pub steps: Vec<TaskStep>,
    pub commands: KeyedMap<CommandConfig>,
}

/// What `niles.yaml` sets for every task of a project.
pub struct ProjectConfig {
    pub workspace: Option<String>,
    pub agents: KeyedMap<AgentConfig>,
    pub commands: KeyedMap<CommandConfig>,
}

impl Default for ProjectConfig {
    fn default() -> (r: ProjectConfig)
        ensures
            r.workspace is None,
            r.agents@ == Map::<Seq<char>, AgentConfig>::empty(),
            r.commands@ == Map::<Seq<char>, CommandConfig>::empty(),
    {
        ProjectConfig { workspace: None, agents: KeyedMap::new(), commands: KeyedMap::new() }
    }
}

/// The task's own workspace, agents and commands win; the project's fill in the rest.
pub fn apply_project_config(spec: TaskSpec, config: ProjectConfig) -> (r: TaskSpec)
    ensures
        r.goal == spec.goal,
        r.workspace == (if spec.workspace is Some {
            spec.workspace
        } else {
            config.workspace
        }),
        r.agents@ == config.agents@.union_prefer_right(spec.agents@),
        r.steps == spec.steps,
        r.commands@ == config.commands@.union_prefer_right(spec.commands@),
{
    let TaskSpec { goal, workspace, agents, steps, commands } = spec;
    let ProjectConfig { workspace: config_workspace, agents: config_agents, commands: config_commands } = config;
    let workspace = match workspace {
        Some(w) => Some(w),
        None => config_workspace,
    };
    let mut merged_agents = config_agents;
    merged_agents.extend(agents);
    let mut merged_commands = config_commands;
    merged_commands.extend(commands);
    TaskSpec { goal, workspace, agents: merged_agents, steps, commands: merged_commands }
}

/// Parts joined with commas.
pub open spec fn comma_joined(parts: Seq<Seq<char>>) -> Seq<char>
    decreases parts.len(),
{
    if parts.len() == 0 {
        Seq::empty()
    } else if parts.len() == 1 {
        parts[0]
    } else {
        comma_joined(parts.drop_last()) + ","@ + parts.last()
    }
}

/// An agent of the summary: its binary (the id where none is set) and its id.
pub open spec fn agent_json(entry: (String, AgentConfig)) -> Seq<char> {
    let binary = match entry.1.binary {
        Some(b) => b@,
        None => entry.0@,
    };
    "{\"binary\":"@ + json_string(binary) + ",\"id\":"@ + json_string(entry.0@) + "}"@
}

/// A step of the summary: an agent and its task, or a command.
pub open spec fn step_json(step: TaskStep) -> Seq<char> {
    match step {
        TaskStep::Agent { agent, task } => "{\"agent\":"@ + json_string(agent@) + ",\"task\":"@
            + json_string(task@) + "}"@,
        TaskStep::Command { command } => "{\"command\":"@ + json_string(command@) + "}"@,
    }
}

/// A named command of the summary, as it was written: its command line, or a table with `run`.
pub open spec fn command_entry_json(entry: (String, CommandConfig)) -> Seq<char> {
    json_string(entry.0@) + ":"@ + match entry.1 {
        CommandConfig::Short(run) => json_string(run@),
        CommandConfig::Full { run } => "{\"run\":"@ + json_string(run@) + "}"@,
    }
}

/// The summary of a task as compact JSON, its keys in order: the agents in key order, the
/// commands by name, the steps in order, and the workspace (`null` where none is set).
pub open spec fn summary_text(spec: TaskSpec) -> Seq<char> {
    "{\"agents\":["@ + comma_joined(spec.agents.entry_seq().map_values(|e: (String, AgentConfig)| agent_json(e)))
        + "],\"commands\":{"@ + comma_joined(spec.commands.entry_seq().map_values(|e: (String, CommandConfig)| command_entry_json(e)))
        + "},\"steps\":["@ + comma_joined(spec.steps@.map_values(|s: TaskStep| step_json(s)))
        + "],\"workspace\":"@ + match spec.workspace {
            Some(w) => json_string(w@),
            None => "null"@,
        } + "}"@
}

/// A summary of the task for its run record: the JSON text that serde_json writes for it.
pub fn summarize_spec(spec: &TaskSpec) -> (r: String)
    ensures
        r@ == summary_text(*spec),
{
    let mut r = String::new();
    push_str(&mut r, "{\"agents\":[");
    let ghost start = r@;
    let agents = spec.agents.entries();
    let ghost parts = agents@.map_values(|e: (String, AgentConfig)| agent_json(e));
    let mut i: usize = 0;
    while i < agents.len()
        invariant
            i <= agents@.len(),
            parts == agents@.map_values(|e: (String, AgentConfig)| agent_json(e)),
            r@ == start + comma_joined(parts.take(i as int)),
        decreases agents.len() - i,
    {
        assert(parts.take(i + 1).drop_last() =~= parts.take(i as int));
        if i > 0 {
            push_str(&mut r, ",");
        }
        let (id, config) = &agents[i];
        push_str(&mut r, "{\"binary\":");
        match &config.binary {
            Some(b) => push_json(&mut r, b.as_str()),
            None => push_json(&mut r, id.as_str()),
        }
        push_str(&mut r, ",\"id\":");
        push_json(&mut r, id.as_str());
        push_str(&mut r, "}");
        proof {
            if i == 0 {
                assert(r@ =~= start + comma_joined(parts.take(1)));
            } else {
                assert(r@ =~= start + comma_joined(parts.take(i + 1)));
            }
        }
        i += 1;
    }
    assert(parts.take(agents@.len() as int) =~= parts);
    push_str(&mut r, "],\"commands\":{");
    let ghost start = r@;
    let commands = spec.commands.entries();
    let ghost parts = commands@.map_values(|e: (String, CommandConfig)| command_entry_json(e));
    let mut i: usize = 0;
    while i < commands.len()
        invariant
            i <= commands@.len(),
            parts == commands@.map_values(|e: (String, CommandConfig)| command_entry_json(e)),
            r@ == start + comma_joined(parts.take(i as int)),
        decreases commands.len() - i,
    {
        assert(parts.take(i + 1).drop_last() =~= parts.take(i as int));
        if i > 0 {
            push_str(&mut r, ",");
        }
        let (name, config) = &commands[i];
        push_json(&mut r, name.as_str());
        push_str(&mut r, ":");
        match config {
            CommandConfig::Short(run) => push_json(&mut r, run.as_str()),
            CommandConfig::Full { run } => {
                push_str(&mut r, "{\"run\":");
                push_json(&mut r, run.as_str());
                push_str(&mut r, "}");
            },
        }
        proof {
            if i == 0 {
                assert(r@ =~= start + comma_joined(parts.take(1)));
            } else {
                assert(r@ =~= start + comma_joined(parts.take(i + 1)));
            }
        }
        i += 1;
    }
    assert(parts.take(commands@.len() as int) =~= parts);
    push_str(&mut r, "},\"steps\":[");
    let ghost start = r@;
    let ghost parts = spec.steps@.map_values(|s: TaskStep| step_json(s));
    let mut i: usize = 0;
    while i < spec.steps.len()
        invariant
            i <= spec.steps@.len(),
            parts == spec.steps@.map_values(|s: TaskStep| step_json(s)),
            r@ == start + comma_joined(parts.take(i as int)),
        decreases spec.steps.len() - i,
    {
        assert(parts.take(i + 1).drop_last() =~= parts.take(i as int));
        if i > 0 {
            push_str(&mut r, ",");
        }
        match &spec.steps[i] {
            TaskStep::Agent { agent, task } => {
                push_str(&mut r, "{\"agent\":");
                push_json(&mut r, agent.as_str());
                push_str(&mut r, ",\"task\":");
                push_json(&mut r, task.as_str());
                push_str(&mut r, "}");
            },
            TaskStep::Command { command } => {
                push_str(&mut r, "{\"command\":");
                push_json(&mut r, command.as_str());
                push_str(&mut r, "}");
            },
        }
        proof {
            if i == 0 {
                assert(r@ =~= start + comma_joined(parts.take(1)));
            } else {
                assert(r@ =~= start + comma_joined(parts.take(i + 1)));
            }
        }
        i += 1;
    }
    assert(parts.take(spec.steps@.len() as int) =~= parts);
    push_str(&mut r, "],\"workspace\":");
    match &spec.workspace {
        Some(w) => push_json(&mut r, w.as_str()),
        None => push_str(&mut r, "null"),
    }
    push_str(&mut r, "}");
    r
}

} // verus!
