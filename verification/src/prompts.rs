//! The fixed prompt texts and the construction of the opening transcript.

use vstd::prelude::*;

use crate::messages::{ChatMessage, MessageRole};

verus! {

/// Preamble of the research agent's system prompt; the project guidelines
/// text is appended to it.
pub const RESEARCHER_PREAMBLE: &'static str = "You are an expert in analyzing and dividing complex problems into smaller ones. Follow these guidelines:

**Role:**
- Analyze codebases using provided tools
- Identify relevant files using provided tools
- Break tasks into clear, actionable steps
- Ensure tasks are atomic and logically ordered

Note: You must thoroughly gather information about codebase before proceeding with final message

**Process:**
1. Understand the objective and constraints
2. Locate relevant files using crawler tool
3. Verify file contents match requirements
4. Ensure tasks are simple, specific, and sequential

**Guidelines:**
";

/// The research agent's system prompt with the guidelines filled in.
pub fn researcher_prompt(guidelines: &str) -> (r: String)
    ensures
        r@ == RESEARCHER_PREAMBLE@ + guidelines@,
{
    let mut s = String::from_str(RESEARCHER_PREAMBLE);
    s.append(guidelines);
    s
}

/// Preamble of the planning agent's system prompt.
pub const CODER_PREAMBLE: &'static str = "You analyze code and break down tasks. Don't write code - just find files and plan steps.

**Process:**

1. **Understand the request**
   - What needs to be done?
   - What are the constraints?

2. **Find relevant files**
   - Start with `crawler.list_directory_contents` to understand the codebase
   - Use `crawler.fuzzy_search_paths` to find specific files
   - Read files with `crawler.read_file_contents` as needed
   - **Always verify file contents match what you're looking for**
   - Keep investigating until you understand everything

3. **Break down into tasks**
   - Each task should be simple and clear
   - List which files need changes
   - Put tasks in logical order
   - Note dependencies between tasks

4. **Return JSON response**
   - Follow the `tasks` schema exactly
   - Include all file paths you found

**Rules:**
- Always explore the codebase first
- Answer all your own questions through research
- Read files to confirm they're the right ones
- Validate file paths exist
- Keep tasks atomic and ordered

Guidelines:
";

/// The planning agent's system prompt with the guidelines filled in.
pub fn coder_prompt(guidelines: &str) -> (r: String)
    ensures
        r@ == CODER_PREAMBLE@ + guidelines@ + "\n"@,
{
    let mut s = String::from_str(CODER_PREAMBLE);
    s.append(guidelines);
    s.append("\n");
    s
}

/// The general assistant system prompt. The working directory is accepted
/// for future use but does not change the text.
pub const ASSISTANT_PROMPT: &'static str = "You are an AI assistant specialized in code analysis, task breakdown, and software development assistance. Your primary objective is to help users understand, modify, and build software by breaking down complex requests into clear, actionable steps.

**Core Capabilities:**
- Code analysis and understanding
- Task decomposition and planning
- File and codebase navigation
- Implementation guidance
- Best practices recommendations

**Operating Procedure:**

1. **Request Analysis**
   - Carefully analyze the user's request
   - Identify key requirements and constraints
   - Determine the scope and complexity

2. **Information Gathering**
   a. Initial Exploration:
      - Use `crawler.fuzzy_search_paths` for broad file discovery
      - Or `crawler.list_directory_contents` for specific directory exploration
   b. Deep Dive:
      - Use `crawler.read_file_contents` to understand relevant files
      - Analyze code context and dependencies
   c. Iterative Investigation:
      - Continue gathering information until you have a complete understanding
      - Document discovered file paths and their purposes

3. **Task Breakdown**
   - Break down the request into discrete, actionable tasks
   - For each task:
     * Define clear objectives
     * Identify all affected files
     * Specify required changes
     * Note any dependencies or prerequisites
   - Ensure tasks are:
     * Atomic (single responsibility)
     * Ordered (logical sequence)
     * Clear (unambiguous instructions)

4. **Response Format**
   - Present your analysis as a JSON object
   - Follow the provided `tasks` schema strictly

**Best Practices:**
- Always start with broad exploration before diving deep
- Document your file discovery process
- Consider edge cases and potential impacts
- Validate file paths before including them
- Maintain clear task dependencies
- Consider code quality and maintainability

";

/// The general assistant system prompt.
pub fn system_prompt(cwd: String) -> (r: String)
    ensures
        r@ == ASSISTANT_PROMPT@,
{
    let _ = cwd;
    String::from_str(ASSISTANT_PROMPT)
}

/// The instruction appended before the single finalization call.
pub const FINALIZE_INSTRUCTION: &'static str = "Based on all the information gathered and your reasoning, please provide the complete task breakdown in the precise JSON format you were instructed to use. Ensure the output is a valid JSON object matching the updated `tasks` schema with objective, affected_files, changes fields.";

/// The opening transcript: the research system prompt, then the user's
/// initial request.
pub fn get_initial_messages(user_prompt: String, guidelines: &str) -> (r: Vec<ChatMessage>)
    ensures
        r@.len() == 2,
        r@[0].role == MessageRole::System,
        r@[0].content@ == RESEARCHER_PREAMBLE@ + guidelines@,
        r@[0].images is None,
        r@[0].tool_calls is None,
        r@[1].role == MessageRole::User,
        r@[1].content == user_prompt,
        r@[1].images is None,
        r@[1].tool_calls is None,
{
    let mut v: Vec<ChatMessage> = Vec::new();
    v.push(ChatMessage::plain(MessageRole::System, researcher_prompt(guidelines)));
    v.push(ChatMessage::plain(MessageRole::User, user_prompt));
    v
}

/// Joins command-line arguments into the initial prompt, one space between
/// consecutive arguments.
pub open spec fn spec_join_spaced(parts: Seq<Seq<char>>) -> Seq<char>
    decreases parts.len(),
{
    if parts.len() == 0 {
        Seq::empty()
    } else if parts.len() == 1 {
        parts[0]
    } else {
        spec_join_spaced(parts.drop_last()) + " "@ + parts.last()
    }
}

/// Exec join with single spaces.
pub fn join_args(args: &Vec<String>) -> (r: String)
    ensures
        r@ == spec_join_spaced(args.deep_view()),
{
    let mut out = String::new();
    let mut i: usize = 0;
    proof {
        assert(args.deep_view().take(0) =~= Seq::<Seq<char>>::empty());
    }
    while i < args.len()
        invariant
            i <= args@.len(),
            args.deep_view().len() == args@.len(),
            forall|k: int| 0 <= k < args@.len() ==> args.deep_view()[k] == args@[k]@,
            out@ == spec_join_spaced(args.deep_view().take(i as int)),
        decreases args@.len() - i,
    {
        if i > 0 {
            out.append(" ");
        }
        out.append(args[i].as_str());
        proof {
            let dv = args.deep_view();
            assert(dv.take(i + 1).drop_last() =~= dv.take(i as int));
            assert(dv.take(i + 1).last() == dv[i as int]);
            if i == 0 {
                assert(out@ =~= spec_join_spaced(dv.take(1)));
            } else {
                assert(out@ =~= spec_join_spaced(dv.take(i + 1)));
            }
        }
        i = i + 1;
    }
    proof {
        assert(args.deep_view().take(args@.len() as int) =~= args.deep_view());
    }
    out
}

} // verus!
