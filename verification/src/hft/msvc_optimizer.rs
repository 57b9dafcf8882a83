//! Compiler settings for the trading build.

use vstd::prelude::*;
use crate::base::text::{decimal, join, joined, push_decimal, views};

verus! {

/// What a panic does.
#[derive(Debug, Clone, Copy, PartialEq, Eq, Structural)]
pub enum PanicStrategy {
    Abort,
    Unwind,
}

impl PanicStrategy {
    /// The name that the compiler uses.
    pub open spec fn name(self) -> Seq<char> {
        match self {
            PanicStrategy::Abort => "abort"@,
            PanicStrategy::Unwind => "unwind"@,
        }
    }
}

fn strategy_name(s: PanicStrategy) -> (r: &'static str)
    ensures
        r@ == s.name(),
{
    match s {
        PanicStrategy::Abort => "abort",
        PanicStrategy::Unwind => "unwind",
    }
}

/// Compiler settings.
#[derive(Debug, Clone)]
pub struct MsvcOptimizerConfig {
    pub target_cpu: String,
    pub optimization_level: u8,
    pub lto_enabled: bool,
    pub codegen_units: u32,
    pub panic_strategy: PanicStrategy,
    pub target_features: Vec<String>,
}

impl Default for MsvcOptimizerConfig {
    fn default() -> (c: Self)
        ensures
            c.target_cpu@ == "native"@,
            c.optimization_level == 3,
            c.lto_enabled,
            c.codegen_units == 1,
            c.panic_strategy == PanicStrategy::Abort,
            views(c.target_features@) == seq!["avx2"@, "bmi2"@, "fma"@, "lzcnt"@, "popcnt"@],
    {
        let mut target_features: Vec<String> = Vec::new();
        target_features.push("avx2".to_string());
        target_features.push("bmi2".to_string());
        target_features.push("fma".to_string());
        target_features.push("lzcnt".to_string());
        target_features.push("popcnt".to_string());
        assert(views(target_features@) =~= seq![
            "avx2"@,
            "bmi2"@,
            "fma"@,
            "lzcnt"@,
            "popcnt"@,
        ]);
        MsvcOptimizerConfig {
            target_cpu: "native".to_string(),
            optimization_level: 3,
            lto_enabled: true,
            codegen_units: 1,
            panic_strategy: PanicStrategy::Abort,
            target_features,
        }
    }
}

/// One flag for each feature.
pub open spec fn feature_flags(features: Seq<Seq<char>>) -> Seq<Seq<char>> {
    Seq::new(features.len(), |i: int| "-C target-feature=+"@ + features[i])
}

impl MsvcOptimizerConfig {
    /// The flags, one by one.
    pub open spec fn flags(&self) -> Seq<Seq<char>> {
        seq![
            "-C target-cpu="@ + self.target_cpu@,
            "-C opt-level="@ + decimal(self.optimization_level as nat),
        ] + (if self.lto_enabled {
            seq!["-C lto=fat"@]
        } else {
            Seq::empty()
        }) + seq![
            "-C codegen-units="@ + decimal(self.codegen_units as nat),
            "-C panic="@ + self.panic_strategy.name(),
        ] + feature_flags(views(self.target_features@))
    }

    /// The flags in one line.
    pub fn generate_rustflags(&self) -> (r: String)
        ensures
            r@ == joined(self.flags(), " "@),
    {
        let mut flags: Vec<String> = Vec::new();
        let mut cpu: String = "-C target-cpu=".to_string();
        cpu.push_str(self.target_cpu.as_str());
        flags.push(cpu);
        let mut level: String = "-C opt-level=".to_string();
        push_decimal(&mut level, self.optimization_level as u64);
        flags.push(level);
        if self.lto_enabled {
            flags.push("-C lto=fat".to_string());
        }
        let mut units: String = "-C codegen-units=".to_string();
        push_decimal(&mut units, self.codegen_units as u64);
        flags.push(units);
        let mut panic: String = "-C panic=".to_string();
        panic.push_str(strategy_name(self.panic_strategy));
        flags.push(panic);
        let ghost start = views(flags@);
        let ghost features = feature_flags(views(self.target_features@));
        let mut i: usize = 0;
        assert(start + features.take(0) =~= start);
        while i < self.target_features.len()
            invariant
                i <= self.target_features@.len(),
                features == feature_flags(views(self.target_features@)),
                views(flags@) == start + features.take(i as int),
            decreases self.target_features@.len() - i,
        {
            let ghost before = views(flags@);
            let mut feature: String = "-C target-feature=+".to_string();
            feature.push_str(self.target_features[i].as_str());
            let ghost added = feature@;
            flags.push(feature);
            assert(views(flags@) =~= before.push(added));
            assert(added == features[i as int]);
            assert(views(flags@) =~= start + features.take(i + 1));
            i += 1;
        }
        assert(views(flags@) =~= self.flags());
        join(&flags, " ")
    }

    /// The profile in a manifest.
    pub open spec fn profile(&self) -> Seq<char> {
        "[profile.release]\nopt-level = "@ + decimal(self.optimization_level as nat) + "\nlto = "@
            + (if self.lto_enabled {
            "fat"@
        } else {
            "thin"@
        }) + "\ncodegen-units = "@ + decimal(self.codegen_units as nat) + "\npanic = \""@
            + self.panic_strategy.name() + "\"\nstrip = true\ndebug = false\nrpath = false\n"@
    }

    /// The profile in a manifest.
    pub fn generate_cargo_profile(&self) -> (r: String)
        ensures
            r@ == self.profile(),
    {
        let mut out: String = "[profile.release]\nopt-level = ".to_string();
        push_decimal(&mut out, self.optimization_level as u64);
        out.push_str("\nlto = ");
        if self.lto_enabled {
            out.push_str("fat");
        } else {
            out.push_str("thin");
        }
        out.push_str("\ncodegen-units = ");
        push_decimal(&mut out, self.codegen_units as u64);
        out.push_str("\npanic = \"");
        out.push_str(strategy_name(self.panic_strategy));
        out.push_str("\"\nstrip = true\ndebug = false\nrpath = false\n");
        out
    }
}

/// Which of the needed features a machine lacks, in the order they are looked
/// for.
pub fn check_hardware(avx2: bool, bmi2: bool, fma: bool) -> (r: Result<(), String>)
    ensures
        r is Ok <==> avx2 && bmi2 && fma,
        r is Err ==> r->Err_0@ == (if !avx2 {
            "AVX2 not supported on this CPU"@
        } else if !bmi2 {
            "BMI2 not supported on this CPU"@
        } else {
            "FMA not supported on this CPU"@
        }),
{
    if !avx2 {
        return Err("AVX2 not supported on this CPU".to_string());
    }
    if !bmi2 {
        return Err("BMI2 not supported on this CPU".to_string());
    }
    if !fma {
        return Err("FMA not supported on this CPU".to_string());
    }
    Ok(())
}

} // verus!
