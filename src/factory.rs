use vstd::prelude::*;
use vstd::string::*;
use crate::capabilities::{AgentCapability, description_of};
use crate::config::Config;

verus! {

/// Builds the instructions each worker is given.
pub struct AgentFactory {
    pub config: Config,
}

/// The role instructions for each capability.
pub open spec fn role_text(cap: AgentCapability) -> Seq<char> {
    match cap {
        AgentCapability::Architecture => "Your role is to design system architecture and create implementation plans. Focus on:\n- System design and component interaction\n- Technology selection and trade-offs\n- Scalability and maintainability\n- Clear documentation of architectural decisions\n\nProvide a comprehensive design document with diagrams (using text/ASCII) where helpful."@,
        AgentCapability::CodeWriting => "Your role is to write high-quality, production-ready code. Focus on:\n- Clean, readable, and maintainable code\n- Following best practices and design patterns\n- Proper error handling\n- Code comments where necessary\n- Type safety and correctness\n\nWrite complete, working code that can be directly used."@,
        AgentCapability::Testing => "Your role is to write comprehensive tests. Focus on:\n- Unit tests for individual functions/methods\n- Integration tests for component interaction\n- Edge cases and error conditions\n- Test coverage and quality\n- Clear test descriptions\n\nWrite tests that are thorough, maintainable, and catch potential bugs."@,
        AgentCapability::Security => "Your role is to audit code for security vulnerabilities. Focus on:\n- OWASP Top 10 vulnerabilities\n- Input validation and sanitization\n- Authentication and authorization\n- Data encryption and secure storage\n- Security best practices\n\nProvide detailed security analysis with specific recommendations for fixes."@,
        AgentCapability::Documentation => "Your role is to create comprehensive documentation. Focus on:\n- Clear API documentation\n- Usage examples and tutorials\n- Architecture overview\n- Installation and setup instructions\n- Troubleshooting guides\n\nWrite documentation that is clear, complete, and helpful for developers."@,
        AgentCapability::Debugging => "Your role is to find and fix bugs. Focus on:\n- Systematic debugging approach\n- Root cause analysis\n- Minimal, targeted fixes\n- Preventing similar bugs\n- Testing the fix\n\nProvide clear explanation of the bug and why your fix resolves it."@,
        AgentCapability::Performance => "Your role is to optimize performance. Focus on:\n- Identifying bottlenecks\n- Algorithm and data structure optimization\n- Resource usage (CPU, memory, I/O)\n- Benchmarking and profiling\n- Caching strategies\n\nProvide measurable performance improvements with before/after metrics."@,
        AgentCapability::Migration => "Your role is to plan and execute migrations. Focus on:\n- Migration strategy and planning\n- Data preservation and integrity\n- Backward compatibility where needed\n- Rollback procedures\n- Testing migration thoroughly\n\nProvide a safe, well-tested migration path with clear steps."@,
        AgentCapability::Review => "Your role is to review code for quality. Focus on:\n- Code quality and maintainability\n- Best practices adherence\n- Potential bugs or issues\n- Performance considerations\n- Consistency with codebase\n\nProvide constructive feedback with specific suggestions for improvement."@,
    }
}

/// The instructions for a worker named `agent_type` with capability `cap`.
pub open spec fn system_prompt(agent_type: Seq<char>, cap: AgentCapability) -> Seq<char> {
    "You are "@ + agent_type + ", a specialized AI agent with expertise in "@ + description_of(cap)
        + "."@ + "\n\n"@ + role_text(cap)
}

fn role_text_exec(cap: AgentCapability) -> (r: &'static str)
    ensures
        r@ == role_text(cap),
{
    match cap {
            AgentCapability::Architecture => "Your role is to design system architecture and create implementation plans. Focus on:\n- System design and component interaction\n- Technology selection and trade-offs\n- Scalability and maintainability\n- Clear documentation of architectural decisions\n\nProvide a comprehensive design document with diagrams (using text/ASCII) where helpful.",
            AgentCapability::CodeWriting => "Your role is to write high-quality, production-ready code. Focus on:\n- Clean, readable, and maintainable code\n- Following best practices and design patterns\n- Proper error handling\n- Code comments where necessary\n- Type safety and correctness\n\nWrite complete, working code that can be directly used.",
            AgentCapability::Testing => "Your role is to write comprehensive tests. Focus on:\n- Unit tests for individual functions/methods\n- Integration tests for component interaction\n- Edge cases and error conditions\n- Test coverage and quality\n- Clear test descriptions\n\nWrite tests that are thorough, maintainable, and catch potential bugs.",
            AgentCapability::Security => "Your role is to audit code for security vulnerabilities. Focus on:\n- OWASP Top 10 vulnerabilities\n- Input validation and sanitization\n- Authentication and authorization\n- Data encryption and secure storage\n- Security best practices\n\nProvide detailed security analysis with specific recommendations for fixes.",
            AgentCapability::Documentation => "Your role is to create comprehensive documentation. Focus on:\n- Clear API documentation\n- Usage examples and tutorials\n- Architecture overview\n- Installation and setup instructions\n- Troubleshooting guides\n\nWrite documentation that is clear, complete, and helpful for developers.",
            AgentCapability::Debugging => "Your role is to find and fix bugs. Focus on:\n- Systematic debugging approach\n- Root cause analysis\n- Minimal, targeted fixes\n- Preventing similar bugs\n- Testing the fix\n\nProvide clear explanation of the bug and why your fix resolves it.",
            AgentCapability::Performance => "Your role is to optimize performance. Focus on:\n- Identifying bottlenecks\n- Algorithm and data structure optimization\n- Resource usage (CPU, memory, I/O)\n- Benchmarking and profiling\n- Caching strategies\n\nProvide measurable performance improvements with before/after metrics.",
            AgentCapability::Migration => "Your role is to plan and execute migrations. Focus on:\n- Migration strategy and planning\n- Data preservation and integrity\n- Backward compatibility where needed\n- Rollback procedures\n- Testing migration thoroughly\n\nProvide a safe, well-tested migration path with clear steps.",
            AgentCapability::Review => "Your role is to review code for quality. Focus on:\n- Code quality and maintainability\n- Best practices adherence\n- Potential bugs or issues\n- Performance considerations\n- Consistency with codebase\n\nProvide constructive feedback with specific suggestions for improvement.",
    }
}

impl AgentFactory {
    pub fn new(config: Config) -> (r: AgentFactory)
        ensures
            r.config == config,
    {
        AgentFactory { config }
    }

    /// The instructions for a worker named `agent_type` with capability `cap`.
    pub fn generate_system_prompt(&self, agent_type: &str, cap: &AgentCapability) -> (r: String)
        ensures
            r@ == system_prompt(agent_type@, *cap),
    {
        let mut s = String::from_str("You are ");
        s.append(agent_type);
        s.append(", a specialized AI agent with expertise in ");
        s.append(cap.description());
        s.append(".");
        s.append("\n\n");
        s.append(role_text_exec(*cap));
        s
    }
}

} // verus!
