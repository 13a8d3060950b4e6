//! Advice on the memory that a model needs.

use vstd::prelude::*;
use crate::json::views;

verus! {

/// How the memory of the machine compares with what a model requires.
#[derive(Clone, Copy, Debug, PartialEq, Eq)]
pub enum MemoryStatus {
    /// The memory that is available covers the requirement.
    Sufficient,
    /// The memory that is installed covers the requirement, but not the part
    /// of it that is available.
    Tight,
    /// Not even the memory that is installed covers the requirement.
    Insufficient,
}

/// The advice for a status, in order; and last, for a model so large that
/// offloading experts to the CPU would help, a word on that.
pub open spec fn advice(status: MemoryStatus, offloading_helps: bool) -> Seq<Seq<char>> {
    let first = match status {
        MemoryStatus::Sufficient => seq!["✅ Sufficient memory available"@],
        MemoryStatus::Tight => seq![
            "⚠️  Close other applications to free memory"@,
            "💡 Consider restarting to free cached memory"@,
        ],
        MemoryStatus::Insufficient => seq![
            "❌ Insufficient system memory"@,
            "💡 Use a smaller model (7B instead of 14B parameters)"@,
            "💡 Add more RAM to your system"@,
            "💡 Use a more quantized model (Q4_K_M instead of Q8_0)"@,
        ],
    };
    if offloading_helps {
        first.push("🧠 MoE CPU offloading would help (currently disabled - Issue #108)"@)
    } else {
        first
    }
}

impl MemoryStatus {
    /// The advice to give for this status. `offloading_helps` says whether
    /// the model is so large that offloading experts to the CPU would help.
    pub fn get_recommendations(&self, offloading_helps: bool) -> (recommendations: Vec<String>)
        ensures
            views(recommendations@) == advice(*self, offloading_helps),
    {
        let mut recommendations: Vec<String> = Vec::new();
        match self {
            MemoryStatus::Sufficient => {
                recommendations.push(String::from_str("✅ Sufficient memory available"));
            },
            MemoryStatus::Tight => {
                recommendations.push(
                    String::from_str("⚠️  Close other applications to free memory"),
                );
                recommendations.push(
                    String::from_str("💡 Consider restarting to free cached memory"),
                );
            },
            MemoryStatus::Insufficient => {
                recommendations.push(String::from_str("❌ Insufficient system memory"));
                recommendations.push(
                    String::from_str("💡 Use a smaller model (7B instead of 14B parameters)"),
                );
                recommendations.push(String::from_str("💡 Add more RAM to your system"));
                recommendations.push(
                    String::from_str("💡 Use a more quantized model (Q4_K_M instead of Q8_0)"),
                );
            },
        }
        if offloading_helps {
            recommendations.push(
                String::from_str(
                    "🧠 MoE CPU offloading would help (currently disabled - Issue #108)",
                ),
            );
        }
        assert(views(recommendations@) =~= advice(*self, offloading_helps));
        recommendations
    }
}

} // verus!
