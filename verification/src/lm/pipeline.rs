//! Prompt pipelines: a chain of steps, each a prompt built from templates in
//! which `{input}` stands for the previous step's output (the request's input
//! for the first step).

use vstd::prelude::*;
use crate::text::{owned, replace_all, replace_str};
use crate::lm::models::{
    messages_view, ChatMessage, ContentView, MessageContent, MessageView, PipelineResponse,
    PipelineStepResult,
};

verus! {

/// The placeholder for the previous output.
pub open spec fn placeholder() -> Seq<char> {
    "{input}"@
}

/// `template` with every `{input}` replaced by `input`.
pub fn apply_template(template: &str, input: &str) -> (r: String)
    ensures
        r@ == replace_all(template@, placeholder(), input@),
{
    proof {
        reveal_strlit("{input}");
    }
    replace_str(template, "{input}", input)
}

/// The messages of a step: the system template (when given) and the user
/// template (the input itself when none is given), each filled with the input.
pub open spec fn step_messages_spec(
    system: Option<Seq<char>>,
    user: Option<Seq<char>>,
    input: Seq<char>,
) -> Seq<MessageView> {
    let u = MessageView {
        role: "user"@,
        content: ContentView::Text(
            match user {
                Some(t) => replace_all(t, placeholder(), input),
                None => input,
            },
        ),
    };
    match system {
        Some(t) => seq![
            MessageView {
                role: "system"@,
                content: ContentView::Text(replace_all(t, placeholder(), input)),
            },
            u,
        ],
        None => seq![u],
    }
}

/// The messages of a step (see `step_messages_spec`).
pub fn step_messages(system: Option<&str>, user: Option<&str>, input: &str) -> (r: Vec<ChatMessage>)
    ensures
        messages_view(r@) == step_messages_spec(
            match system {
                Some(t) => Some(t@),
                None => None,
            },
            match user {
                Some(t) => Some(t@),
                None => None,
            },
            input@,
        ),
{
    let mut r: Vec<ChatMessage> = Vec::new();
    if let Some(t) = system {
        r.push(
            ChatMessage {
                role: owned("system"),
                content: MessageContent::Text(apply_template(t, input)),
            },
        );
    }
    let text = match user {
        Some(t) => apply_template(t, input),
        None => owned(input),
    };
    r.push(ChatMessage { role: owned("user"), content: MessageContent::Text(text) });
    proof {
        let s = step_messages_spec(
            match system {
                Some(t) => Some(t@),
                None => None,
            },
            match user {
                Some(t) => Some(t@),
                None => None,
            },
            input@,
        );
        assert(messages_view(r@) =~= s);
    }
    r
}

/// A step's token budget: its own, else the pipeline's, else 512.
pub fn step_max_tokens(step: Option<usize>, per_step: Option<usize>) -> (r: usize)
    ensures
        r == match step {
            Some(n) => n,
            None => match per_step {
                Some(n) => n,
                None => 512,
            },
        },
{
    match step {
        Some(n) => n,
        None => match per_step {
            Some(n) => n,
            None => 512,
        },
    }
}

/// Why a pipeline was refused.
pub enum PipelineError {
    /// It has no steps.
    NoSteps,
}

/// A pipeline with no steps is refused.
pub fn check_steps(step_count: usize) -> (r: Result<(), PipelineError>)
    ensures
        r is Ok <==> step_count > 0,
{
    if step_count == 0 {
        Err(PipelineError::NoSteps)
    } else {
        Ok(())
    }
}

/// A pipeline in progress: the value the next step reads, the results so far,
/// and the token totals.
pub struct PipelineRun {
    pub current: String,
    pub steps: Vec<PipelineStepResult>,
    pub total_prompt_tokens: usize,
    pub total_completion_tokens: usize,
}

impl PipelineRun {
    /// A pipeline about to run on `input`.
    pub fn start(input: String) -> (r: Self)
        ensures
            r.current@ == input@,
            r.steps@.len() == 0,
            r.total_prompt_tokens == 0,
            r.total_completion_tokens == 0,
    {
        PipelineRun {
            current: input,
            steps: Vec::new(),
            total_prompt_tokens: 0,
            total_completion_tokens: 0,
        }
    }

    /// A step answered `output`: it is recorded, counted, and becomes the
    /// input of the next step.
    pub fn record_step(
        &mut self,
        name: Option<String>,
        output: String,
        prompt_tokens: usize,
        completion_tokens: usize,
    )
        requires
            old(self).total_prompt_tokens + prompt_tokens <= usize::MAX,
            old(self).total_completion_tokens + completion_tokens <= usize::MAX,
        ensures
            final(self).current@ == output@,
            final(self).steps@.len() == old(self).steps@.len() + 1,
            forall|i: int|
                0 <= i < old(self).steps@.len() ==> #[trigger] final(self).steps@[i] == old(self).steps@[i],
            final(self).steps@.last().output@ == output@,
            final(self).steps@.last().prompt_tokens == prompt_tokens,
            final(self).steps@.last().completion_tokens == completion_tokens,
            final(self).steps@.last().name == name,
            final(self).total_prompt_tokens == old(self).total_prompt_tokens + prompt_tokens,
            final(self).total_completion_tokens == old(self).total_completion_tokens
                + completion_tokens,
    {
        self.total_prompt_tokens = self.total_prompt_tokens + prompt_tokens;
        self.total_completion_tokens = self.total_completion_tokens + completion_tokens;
        self.steps.push(
            PipelineStepResult {
                name,
                output: output.clone(),
                prompt_tokens,
                completion_tokens,
            },
        );
        self.current = output;
    }

    /// The pipeline's response: the step results, the last output, the model
    /// and the totals.
    pub fn finish(self, model: String) -> (r: PipelineResponse)
        ensures
            r.steps@ == self.steps@,
            r.output@ == self.current@,
            r.model@ == model@,
            r.total_prompt_tokens == self.total_prompt_tokens,
            r.total_completion_tokens == self.total_completion_tokens,
    {
        PipelineResponse {
            steps: self.steps,
            output: self.current,
            model,
            total_prompt_tokens: self.total_prompt_tokens,
            total_completion_tokens: self.total_completion_tokens,
        }
    }
}

} // verus!
