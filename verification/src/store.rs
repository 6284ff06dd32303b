//! Common module with common used structures across different
//! commands.

use crate::target::{Architecture, Triple};
use crate::engine::UniversalEngineInner;
use crate::module::BaseTunables;
use crate::serialize::Features;
use vstd::prelude::*;

verus! {

/// The compilers that can generate the code of a module.
#[derive(Clone, Copy, Debug, PartialEq, Eq, Structural)]
pub enum Compiler {
    /// The compiler that generates code in one pass.
    Singlepass,
    /// The compiler built on Cranelift.
    Cranelift,
    /// The compiler built on LLVM.
    LLVM,
}

/// Why no store could be made.
#[derive(Debug, PartialEq, Eq)]
pub enum StoreError {
    /// No compiler has the name that was asked for.
    UnknownCompiler(String),
    /// None of the compilers of this program works on this machine.
    NoCompiler,
    /// The compiler is not a part of this program.
    NotIncluded(Compiler),
    /// This program has no engine.
    NoEngine,
}

/// What this program was built with, and for which machine.
#[derive(Clone, Copy, Debug, PartialEq, Eq, Structural)]
pub struct Build {
    /// Whether the one-pass compiler is a part of the program.
    pub singlepass: bool,
    /// Whether the Cranelift compiler is a part of the program.
    pub cranelift: bool,
    /// Whether the LLVM compiler is a part of the program.
    pub llvm: bool,
    /// Whether the program can compile at all.
    pub compiler: bool,
    /// Whether the program has an engine.
    pub engine: bool,
    /// The machine that the program runs on.
    pub host: Triple,
}

/// The compiler options
#[derive(Debug)]
pub struct StoreOptions {
    /// Use Singlepass compiler
    pub singlepass: bool,
    /// Use Cranelift compiler
    pub cranelift: bool,
    /// Use LLVM compiler
    pub llvm: bool,
    /// The deprecated backend flag - Please not use
    pub backend: Option<String>,
    /// The features of WebAssembly to compile with.
    pub features: Features,
}

/// How code is to be generated.
#[derive(Clone, Copy, Debug, PartialEq, Eq, Structural)]
pub struct CompilerConfig {
    /// The compiler.
    pub compiler: Compiler,
    /// The features of WebAssembly to compile with.
    pub features: Features,
    /// The machine to compile for.
    pub target: Triple,
}

/// An engine with what it needs to build artifacts.
#[derive(Debug)]
pub struct Store {
    /// The engine.
    pub engine: UniversalEngineInner,
    /// The policy for the layout of memories and tables.
    pub tunables: BaseTunables,
    /// How code is generated; none in a store that only runs compiled modules.
    pub compiler: Option<CompilerConfig>,
}

impl Compiler {
    /// The name of the compiler.
    pub open spec fn name(&self) -> Seq<char> {
        match self {
            Compiler::Singlepass => "singlepass"@,
            Compiler::Cranelift => "cranelift"@,
            Compiler::LLVM => "llvm"@,
        }
    }

    /// Whether the compiler is a part of the program built as `build`.
    pub open spec fn included_in(&self, build: Build) -> bool {
        match self {
            Compiler::Singlepass => build.singlepass,
            Compiler::Cranelift => build.cranelift,
            Compiler::LLVM => build.llvm,
        }
    }

    /// The name of the compiler.
    pub fn to_string(&self) -> (name: String)
        ensures
            name@ == self.name(),
    {
        match self {
            Self::Singlepass => "singlepass".to_string(),
            Self::Cranelift => "cranelift".to_string(),
            Self::LLVM => "llvm".to_string(),
        }
    }

    /// The compiler of the name `s`.
    pub fn from_str(s: &str) -> (res: Result<Compiler, StoreError>)
        ensures
            match res {
                Ok(compiler) => compiler_named(s@) == Some(compiler),
                Err(StoreError::UnknownCompiler(backend)) => {
                    &&& compiler_named(s@) is None
                    &&& backend@ == s@
                },
                Err(_) => false,
            },
    {
        let name = s.to_string();
        if name == "singlepass".to_string() {
            Ok(Self::Singlepass)
        } else if name == "cranelift".to_string() {
            Ok(Self::Cranelift)
        } else if name == "llvm".to_string() {
            Ok(Self::LLVM)
        } else {
            Err(StoreError::UnknownCompiler(name))
        }
    }
}

/// The compiler of the name `name`, if there is one.
pub open spec fn compiler_named(name: Seq<char>) -> Option<Compiler> {
    if name == "singlepass"@ {
        Some(Compiler::Singlepass)
    } else if name == "cranelift"@ {
        Some(Compiler::Cranelift)
    } else if name == "llvm"@ {
        Some(Compiler::LLVM)
    } else {
        None
    }
}

/// The names of the compilers differ.
pub proof fn lemma_compiler_names_differ(left: Compiler, right: Compiler)
    ensures
        left.name() == right.name() ==> left == right,
        compiler_named(left.name()) == Some(left),
{
    reveal_strlit("singlepass");
    reveal_strlit("cranelift");
    reveal_strlit("llvm");
    if left != right {
        assert(left.name().len() != right.name().len());
    }
}

impl BaseTunables {
    /// The policy for a target: on a machine with 64-bit addresses 4 GiB
    /// are reserved for a memory and 2 GiB behind it are inaccessible; on
    /// others 1 GiB and 64 KiB. Behind a memory that may move 64 KiB are
    /// inaccessible.
    pub open spec fn spec_for_target(triple: Triple) -> BaseTunables {
        if triple.architecture.pointer_width() == 64 {
            BaseTunables {
                static_memory_bound: 0x1_0000,
                static_memory_offset_guard_size: 0x8000_0000,
                dynamic_memory_offset_guard_size: 0x1_0000,
            }
        } else {
            BaseTunables {
                static_memory_bound: 0x4000,
                static_memory_offset_guard_size: 0x1_0000,
                dynamic_memory_offset_guard_size: 0x1_0000,
            }
        }
    }

    /// Get the `BaseTunables` for a specific Target
    pub fn for_target(triple: &Triple) -> (tunables: BaseTunables)
        ensures
            tunables == Self::spec_for_target(*triple),
    {
        match triple.architecture {
            Architecture::X86_64 | Architecture::Aarch64 => BaseTunables {
                static_memory_bound: 0x1_0000,
                static_memory_offset_guard_size: 0x8000_0000,
                dynamic_memory_offset_guard_size: 0x1_0000,
            },
            Architecture::X86_32 => BaseTunables {
                static_memory_bound: 0x4000,
                static_memory_offset_guard_size: 0x1_0000,
                dynamic_memory_offset_guard_size: 0x1_0000,
            },
        }
    }
}

impl StoreOptions {
    /// The compiler that the options ask for where they name none: the
    /// best one for the machine among those of the program.
    pub open spec fn automatic_compiler(build: Build) -> Option<Compiler> {
        if build.cranelift && build.host.architecture == Architecture::X86_64 {
            Some(Compiler::Cranelift)
        } else if build.singlepass && build.host.architecture == Architecture::X86_64 {
            Some(Compiler::Singlepass)
        } else if build.llvm {
            Some(Compiler::LLVM)
        } else {
            None
        }
    }

    /// The compiler that the options ask for, if they ask for one that
    /// exists: the one whose flag is set, Cranelift before LLVM before the
    /// one-pass compiler; without a flag the one that the backend option
    /// names; without that the automatic choice.
    pub open spec fn requested(&self, build: Build) -> Option<Compiler> {
        if self.cranelift {
            Some(Compiler::Cranelift)
        } else if self.llvm {
            Some(Compiler::LLVM)
        } else if self.singlepass {
            Some(Compiler::Singlepass)
        } else {
            match self.backend {
                Some(backend) => compiler_named(backend@),
                None => Self::automatic_compiler(build),
            }
        }
    }

    /// Whether `error` says why the options ask for no compiler that
    /// exists: the backend option names none, or there is no automatic choice.
    pub open spec fn refuses_with(&self, error: StoreError) -> bool {
        match self.backend {
            Some(backend) => error matches StoreError::UnknownCompiler(name) && name@ == backend@,
            None => error is NoCompiler,
        }
    }

    /// The compiler that the options ask for.
    pub fn get_compiler(&self, build: &Build) -> (res: Result<Compiler, StoreError>)
        ensures
            match res {
                Ok(compiler) => self.requested(*build) == Some(compiler),
                Err(e) => self.requested(*build) is None && self.refuses_with(e),
            },
    {
        if self.cranelift {
            Ok(Compiler::Cranelift)
        } else if self.llvm {
            Ok(Compiler::LLVM)
        } else if self.singlepass {
            Ok(Compiler::Singlepass)
        } else if let Some(backend) = &self.backend {
            Compiler::from_str(backend.as_str())
        } else {
            // Auto mode, we choose the best compiler for that platform
            if build.cranelift && build.host.architecture == Architecture::X86_64 {
                Ok(Compiler::Cranelift)
            } else if build.singlepass && build.host.architecture == Architecture::X86_64 {
                Ok(Compiler::Singlepass)
            } else if build.llvm {
                Ok(Compiler::LLVM)
            } else {
                Err(StoreError::NoCompiler)
            }
        }
    }

    /// Get the Compiler Config for the current options
    pub fn get_config(&self, compiler: Compiler, build: &Build) -> (res: Result<
        CompilerConfig,
        StoreError,
    >)
        ensures
            res == if compiler.included_in(*build) {
                Ok::<_, StoreError>(
                    (CompilerConfig { compiler, features: self.features, target: build.host }),
                )
            } else {
                Err::<CompilerConfig, _>(StoreError::NotIncluded(compiler))
            },
    {
        let included = match compiler {
            Compiler::Singlepass => build.singlepass,
            Compiler::Cranelift => build.cranelift,
            Compiler::LLVM => build.llvm,
        };
        if included {
            Ok(CompilerConfig { compiler, features: self.features, target: build.host })
        } else {
            Err(StoreError::NotIncluded(compiler))
        }
    }

    /// What the options and the program give as the compiler and its
    /// name: the compiler that the options ask for, if it is a part of the
    /// program.
    pub open spec fn configured(
        &self,
        build: Build,
        res: Result<(CompilerConfig, String), StoreError>,
    ) -> bool {
        match self.requested(build) {
            Some(compiler) => if compiler.included_in(build) {
                &&& res matches Ok((config, name))
                &&& config == (CompilerConfig {
                    compiler,
                    features: self.features,
                    target: build.host,
                })
                &&& name@ == compiler.name()
            } else {
                res matches Err(StoreError::NotIncluded(missing)) && missing == compiler
            },
            None => res matches Err(e) && self.refuses_with(e),
        }
    }

    /// Gets the compiler config
    pub fn get_compiler_config(&self, build: &Build) -> (res: Result<
        (CompilerConfig, String),
        StoreError,
    >)
        ensures
            self.configured(*build, res),
    {
        let compiler = match self.get_compiler(build) {
            Ok(compiler) => compiler,
            Err(e) => {
                return Err(e);
            },
        };
        let compiler_name = compiler.to_string();
        let compiler_config = match self.get_config(compiler, build) {
            Ok(config) => config,
            Err(e) => {
                return Err(e);
            },
        };
        Ok((compiler_config, compiler_name))
    }

    /// Gets the tunables for the compiler target
    pub fn get_tunables(&self, compiler_config: &CompilerConfig) -> (tunables: BaseTunables)
        ensures
            tunables == BaseTunables::spec_for_target(compiler_config.target),
    {
        BaseTunables::for_target(&compiler_config.target)
    }

    /// Gets the store
    ///
    /// A program without an engine has no store. One that cannot compile
    /// gets a store that only runs compiled modules, under the name
    /// `headless`; any other gets a store with the compiler that the options
    /// ask for, under the name of that compiler.
    pub fn get_store(&self, build: &Build) -> (res: Result<(Store, String), StoreError>)
        ensures
            !build.engine ==> res matches Err(StoreError::NoEngine),
            build.engine && !build.compiler ==> {
                &&& res matches Ok((store, name))
                &&& name@ == "headless"@
                &&& store.compiler is None
                &&& store.tunables == BaseTunables::spec_for_target(build.host)
                &&& store.engine.signatures().table().len() == 0
            },
            build.engine && build.compiler ==> match res {
                Ok((store, name)) => {
                    &&& store.compiler matches Some(config)
                    &&& self.configured(*build, Ok((config, name)))
                    &&& store.tunables == BaseTunables::spec_for_target(build.host)
                    &&& store.engine.signatures().table().len() == 0
                },
                Err(e) => self.configured(*build, Err(e)),
            },
    {
        if !build.engine {
            return Err(StoreError::NoEngine);
        }
        if !build.compiler {
            // Get the tunables for the current host
            let tunables = BaseTunables::for_target(&build.host);
            let engine = UniversalEngineInner::for_host();
            return Ok((Store { engine, tunables, compiler: None }, "headless".to_string()));
        }
        let (compiler_config, compiler_name) = match self.get_compiler_config(build) {
            Ok(config) => config,
            Err(e) => {
                return Err(e);
            },
        };
        let tunables = self.get_tunables(&compiler_config);
        let engine = UniversalEngineInner::for_host();
        let store = Store { engine, tunables, compiler: Some(compiler_config) };
        Ok((store, compiler_name))
    }
}

} // verus!
