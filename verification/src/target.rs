//! The platform/architecture a build is compiled for, and the file names
//! that follow from it.

use vstd::prelude::*;
use vstd::string::StringExecFns;

verus! {

/// A build target: the platforms the platform ships on.
#[derive(Clone, Copy, Debug, PartialEq, Eq, Structural)]
pub enum Target {
    LinuxX64,
    LinuxArm64,
    WindowsX64,
    MacX64,
    MacArm64,
}

/// The target triple, as the toolchain names it.
pub open spec fn spec_target_triple(t: Target) -> Seq<char> {
    match t {
        Target::LinuxX64 => "x86_64-unknown-linux-gnu"@,
        Target::LinuxArm64 => "aarch64-unknown-linux-gnu"@,
        Target::WindowsX64 => "x86_64-pc-windows-msvc"@,
        Target::MacX64 => "x86_64-apple-darwin"@,
        Target::MacArm64 => "aarch64-apple-darwin"@,
    }
}

/// The file name of a dynamic library of the given name on this target:
/// `lib….so` on Linux, `….dll` on Windows, `lib….dylib` on macOS.
pub open spec fn spec_dynamic_lib_name(t: Target, name: Seq<char>) -> Seq<char> {
    match t {
        Target::LinuxX64 | Target::LinuxArm64 => "lib"@ + name + ".so"@,
        Target::WindowsX64 => name + ".dll"@,
        Target::MacX64 | Target::MacArm64 => "lib"@ + name + ".dylib"@,
    }
}

impl Target {
    /// The target triple.
    pub fn as_str(&self) -> (r: &'static str)
        ensures
            r@ == spec_target_triple(*self),
    {
        match self {
            Target::LinuxX64 => "x86_64-unknown-linux-gnu",
            Target::LinuxArm64 => "aarch64-unknown-linux-gnu",
            Target::WindowsX64 => "x86_64-pc-windows-msvc",
            Target::MacX64 => "x86_64-apple-darwin",
            Target::MacArm64 => "aarch64-apple-darwin",
        }
    }

    /// The file name of one build's artifact: the dynamic-library name of
    /// the artifact with the build identifier as a suffix, so successive
    /// builds never collide on disk.
    pub fn artifact_file_name(&self, artifact_name: &str, id: u32) -> (r: String)
        ensures
            r@ == spec_dynamic_lib_name(
                *self,
                artifact_name@ + seq!['.'] + crate::text::spec_decimal(id as nat),
            ),
    {
        proof {
            reveal_strlit(".");
            assert("."@ =~= seq!['.']);
        }
        let mut name = artifact_name.to_owned();
        name.append(".");
        let digits = crate::text::u32_decimal(id);
        name.append(digits.as_str());
        self.dynamic_lib_name(name.as_str())
    }

    /// The dynamic-library file name this target gives a library.
    pub fn dynamic_lib_name(&self, name: &str) -> (r: String)
        ensures
            r@ == spec_dynamic_lib_name(*self, name@),
    {
        match self {
            Target::WindowsX64 => {
                let mut out = name.to_owned();
                out.append(".dll");
                out
            },
            Target::LinuxX64 | Target::LinuxArm64 => {
                let mut out = "lib".to_owned();
                out.append(name);
                out.append(".so");
                out
            },
            Target::MacX64 | Target::MacArm64 => {
                let mut out = "lib".to_owned();
                out.append(name);
                out.append(".dylib");
                out
            },
        }
    }
}

} // verus!
