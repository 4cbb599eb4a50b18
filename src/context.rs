//! The prompt for a turn: system prompt, summary, always-on skills, the
//! newest part of the history and the current message, in that order.
use vstd::prelude::*;
use crate::registry::AllowedTools;
use crate::skills::{Skill, SkillsLoader};
use crate::text::{decimal, decimal_string};
use crate::types::{Message, MessageView, Role, messages_view};

verus! {

/// History messages included in a prompt.
pub const MAX_HISTORY_MESSAGES: usize = 20;

/// Role and text of each message.
pub open spec fn outline(ms: Seq<MessageView>) -> Seq<(Role, Seq<char>)> {
    ms.map_values(|m: MessageView| (m.role, m.content))
}

/// The newest `MAX_HISTORY_MESSAGES` messages of `h`.
pub open spec fn window(h: Seq<MessageView>) -> Seq<MessageView> {
    if h.len() > MAX_HISTORY_MESSAGES {
        h.subrange(h.len() - MAX_HISTORY_MESSAGES, h.len() as int)
    } else {
        h
    }
}

/// The system messages of the skills that are always on and available.
pub open spec fn skill_sections(skills: Seq<Skill>) -> Seq<(Role, Seq<char>)>
    decreases skills.len(),
{
    if skills.len() == 0 {
        seq![]
    } else {
        let rest = skill_sections(skills.drop_last());
        let s = skills.last();
        if s.always && s.available {
            rest.push((Role::System, "Skill: "@ + s.name@ + "\n"@ + s.content@))
        } else {
            rest
        }
    }
}

/// Text of the note that stands for `n` history messages left out.
pub open spec fn omitted_note(n: nat) -> Seq<char> {
    "["@ + decimal(n) + " older messages omitted \u{2014} see summary above for context]"@
}

/// Role and text of each message of the prompt.
pub open spec fn prompt_outline(
    system_prompt: Seq<char>,
    history: Seq<MessageView>,
    summary: Option<Seq<char>>,
    skills: Seq<Skill>,
    current: Seq<char>,
) -> Seq<(Role, Seq<char>)> {
    seq![(Role::System, system_prompt)] + match summary {
        Some(s) => seq![(Role::System, "Previous conversation summary: "@ + s)],
        None => seq![],
    } + skill_sections(skills) + (if history.len() > MAX_HISTORY_MESSAGES {
        seq![(Role::System, omitted_note((history.len() - MAX_HISTORY_MESSAGES) as nat))]
    } else {
        seq![]
    }) + outline(window(history)) + seq![(Role::User, current)]
}

/// The base instructions followed by each context file as
/// `--- <name> ---` and its text.
pub open spec fn system_prompt_text(files: Seq<(Seq<char>, Seq<char>)>) -> Seq<char>
    decreases files.len(),
{
    if files.len() == 0 {
        "You are PocketClaw, an intelligent AI assistant.\n"@
            + "You must answer the user's request accurately and concisely.\n"@
            + "If you need to perform actions, use the provided tools.\n"@
    } else {
        system_prompt_text(files.drop_last()) + "\n--- "@ + files.last().0 + " ---\n"@
            + files.last().1 + "\n"@
    }
}

/// The pairs as plain values.
pub open spec fn files_view(v: Seq<(String, String)>) -> Seq<(Seq<char>, Seq<char>)> {
    v.map_values(|p: (String, String)| (p.0@, p.1@))
}

/// Assembles prompts for the workspace at `workspace`.
pub struct ContextBuilder {
    pub workspace: String,
    pub skills_loader: SkillsLoader,
}

fn push_tracked(ms: &mut Vec<Message>, m: Message)
    ensures
        messages_view(final(ms)@) == messages_view(old(ms)@).push(m@),
{
    let ghost before = ms@;
    ms.push(m);
    assert(messages_view(ms@) =~= messages_view(before).push(m@));
}

impl ContextBuilder {
    pub fn new(workspace: String) -> (r: ContextBuilder)
        ensures
            r.workspace@ == workspace@,
            r.skills_loader.workspace_path@ == workspace@,
    {
        let loader = SkillsLoader::new(workspace.clone());
        ContextBuilder { workspace, skills_loader: loader }
    }

    /// The system prompt, given the workspace's context files that could be
    /// read, as name and text, in the order they are consulted.
    pub fn build_system_prompt(context_files: &Vec<(String, String)>) -> (r: String)
        ensures
            r@ == system_prompt_text(files_view(context_files@)),
    {
        let mut prompt = String::from_str("You are PocketClaw, an intelligent AI assistant.\n");
        prompt.append("You must answer the user's request accurately and concisely.\n");
        prompt.append("If you need to perform actions, use the provided tools.\n");
        let mut i: usize = 0;
        while i < context_files.len()
            invariant
                i <= context_files@.len(),
                prompt@ == system_prompt_text(files_view(context_files@.subrange(0, i as int))),
            decreases context_files@.len() - i,
        {
            let ghost next = files_view(context_files@.subrange(0, i as int + 1));
            assert(next.drop_last() =~= files_view(context_files@.subrange(0, i as int)));
            assert(next.last() == (context_files@[i as int].0@, context_files@[i as int].1@));
            prompt.append("\n--- ");
            prompt.append(context_files[i].0.as_str());
            prompt.append(" ---\n");
            prompt.append(context_files[i].1.as_str());
            prompt.append("\n");
            i = i + 1;
            assert(prompt@ =~= system_prompt_text(next));
        }
        assert(context_files@.subrange(0, i as int) =~= context_files@);
        prompt
    }

    /// The prompt for `current_message`: the system prompt, the summary if
    /// there is one, the always-on available skills, a note counting left-out
    /// history where it is longer than `MAX_HISTORY_MESSAGES`, the newest
    /// history messages unchanged, and the current message.
    pub fn build(
        &self,
        system_prompt: &str,
        history: &Vec<Message>,
        summary: Option<&str>,
        skills: &Vec<Skill>,
        current_message: &str,
    ) -> (r: Vec<Message>)
        ensures
            outline(messages_view(r@)) == prompt_outline(
                system_prompt@,
                messages_view(history@),
                match summary {
                    Some(s) => Some(s@),
                    None => None,
                },
                skills@,
                current_message@,
            ),
            messages_view(r@).subrange(
                r@.len() - 1 - window(messages_view(history@)).len(),
                r@.len() - 1,
            ) == window(messages_view(history@)),
    {
        let mut messages: Vec<Message> = Vec::new();
        push_tracked(
            &mut messages,
            Message::new("system", "global", Role::System, system_prompt),
        );
        let ghost sum = match summary {
            Some(s) => Some(s@),
            None => None,
        };
        let ghost head = seq![(Role::System, system_prompt@)] + match sum {
            Some(s) => seq![(Role::System, "Previous conversation summary: "@ + s)],
            None => seq![],
        };
        if let Some(s) = summary {
            let mut t = String::from_str("Previous conversation summary: ");
            t.append(s);
            push_tracked(&mut messages, Message::new("system", "global", Role::System, t.as_str()));
        }
        assert(outline(messages_view(messages@)) =~= head);
        let mut i: usize = 0;
        while i < skills.len()
            invariant
                i <= skills@.len(),
                outline(messages_view(messages@)) == head + skill_sections(
                    skills@.subrange(0, i as int),
                ),
            decreases skills@.len() - i,
        {
            let ghost next = skills@.subrange(0, i as int + 1);
            assert(next.drop_last() =~= skills@.subrange(0, i as int));
            let ghost before = outline(messages_view(messages@));
            if skills[i].always && skills[i].available {
                let mut t = String::from_str("Skill: ");
                t.append(skills[i].name.as_str());
                t.append("\n");
                t.append(skills[i].content.as_str());
                push_tracked(
                    &mut messages,
                    Message::new("system", "global", Role::System, t.as_str()),
                );
                assert(outline(messages_view(messages@)) =~= before.push((Role::System, t@)));
            }
            i = i + 1;
            assert(outline(messages_view(messages@)) =~= head + skill_sections(next));
        }
        assert(skills@.subrange(0, i as int) =~= skills@);
        let ghost h = messages_view(history@);
        let n = history.len();
        let start = if n > MAX_HISTORY_MESSAGES {
            let mut t = String::from_str("[");
            let omitted = decimal_string((n - MAX_HISTORY_MESSAGES) as u64);
            t.append(omitted.as_str());
            t.append(" older messages omitted \u{2014} see summary above for context]");
            push_tracked(&mut messages, Message::new("system", "global", Role::System, t.as_str()));
            n - MAX_HISTORY_MESSAGES
        } else {
            0
        };
        assert(window(h) =~= h.subrange(start as int, n as int));
        let ghost mid = messages_view(messages@);
        let mut j: usize = start;
        while j < n
            invariant
                start <= j <= n == history@.len(),
                h == messages_view(history@),
                messages_view(messages@) == mid + h.subrange(start as int, j as int),
            decreases n - j,
        {
            push_tracked(&mut messages, history[j].duplicate());
            j = j + 1;
            assert(messages_view(messages@) =~= mid + h.subrange(start as int, j as int));
        }
        let ghost body = messages_view(messages@);
        push_tracked(&mut messages, Message::new("cli", "current", Role::User, current_message));
        proof {
            let all = messages_view(messages@);
            assert(all.subrange(all.len() - 1 - window(h).len(), all.len() - 1) =~= window(h));
            assert(outline(mid + window(h)) =~= outline(mid) + outline(window(h)));
            assert(outline(all) =~= outline(body).push((Role::User, current_message@)));
            assert(outline(all) =~= prompt_outline(
                system_prompt@,
                h,
                sum,
                skills@,
                current_message@,
            ));
        }
        messages
    }
}

/// The tools a turn may use, given the loaded skills: exactly the tools that
/// the available skills declare permission for.
pub open spec fn declared_tools(skills: Seq<Skill>) -> Seq<Seq<char>>
    decreases skills.len(),
{
    if skills.len() == 0 {
        seq![]
    } else {
        let rest = declared_tools(skills.drop_last());
        let s = skills.last();
        if s.available && s.permissions is Some {
            rest + s.permissions->Some_0.tools@.map_values(|t: String| t@)
        } else {
            rest
        }
    }
}

/// The permission list of a turn: the tools that the available skills
/// declare. A list that comes out empty permits no tool.
pub fn allowed_tools_for(skills: &Vec<Skill>) -> (r: AllowedTools)
    ensures
        r matches AllowedTools::Restricted(list) && list@.map_values(|t: String| t@)
            == declared_tools(skills@),
{
    let mut list: Vec<String> = Vec::new();
    let mut i: usize = 0;
    while i < skills.len()
        invariant
            i <= skills@.len(),
            list@.map_values(|t: String| t@) == declared_tools(skills@.subrange(0, i as int)),
        decreases skills@.len() - i,
    {
        let ghost next = skills@.subrange(0, i as int + 1);
        assert(next.drop_last() =~= skills@.subrange(0, i as int));
        let ghost before = list@.map_values(|t: String| t@);
        if skills[i].available {
            if let Some(p) = &skills[i].permissions {
                let mut k: usize = 0;
                while k < p.tools.len()
                    invariant
                        k <= p.tools@.len(),
                        list@.map_values(|t: String| t@) == before + p.tools@.subrange(
                            0,
                            k as int,
                        ).map_values(|t: String| t@),
                    decreases p.tools@.len() - k,
                {
                    let ghost prev = list@;
                    let c = p.tools[k].clone();
                    list.push(c);
                    assert(list@ == prev.push(c));
                    assert(list@.map_values(|t: String| t@) =~= prev.map_values(|t: String| t@).push(
                        c@,
                    ));
                    assert(p.tools@.subrange(0, k as int + 1).map_values(|t: String| t@)
                        =~= p.tools@.subrange(0, k as int).map_values(|t: String| t@).push(c@));
                    k = k + 1;
                    assert(list@.map_values(|t: String| t@) =~= before + p.tools@.subrange(
                        0,
                        k as int,
                    ).map_values(|t: String| t@));
                }
                assert(p.tools@.subrange(0, k as int) =~= p.tools@);
            }
        }
        i = i + 1;
        assert(list@.map_values(|t: String| t@) =~= declared_tools(next));
    }
    assert(skills@.subrange(0, i as int) =~= skills@);
    AllowedTools::Restricted(list)
}

} // verus!
