//! The tunable parameters of a run, and how they are resolved.
//!
//! A `Settings` value is built from three layers: built-in defaults, then any
//! number of configuration-file layers (later files win), then the
//! command-line arguments (which win over everything).  A boolean flag on the
//! command line only overrides when it is set; an optional value only when it
//! is given.  The file reading itself is plain I/O and happens outside the
//! library; each file arrives here as a `FileConfig` of optional fields.

use vstd::prelude::*;

verus! {

/// The command-line arguments, as plain values.
#[derive(Debug, Clone)]
pub struct Cli {
    pub keep_files: bool,
    pub force: bool,
    pub unwrap_errors: bool,
    pub verbose: bool,
    pub scale_up: bool,
    pub synchronous: bool,
    pub fix_times: bool,
    pub allow_links: bool,
    pub save_failures_to_ignore: bool,
    pub width: Option<u32>,
    pub columns: Option<u32>,
    pub rows: Option<u32>,
    pub skip: Option<u32>,
    pub threads: Option<u32>,
    pub config: Option<String>,
    pub out_dir: Option<String>,
    pub input: Vec<String>,
}

/// One configuration-file layer: every field optional.
#[derive(Debug, Clone)]
pub struct FileConfig {
    pub keep_files: Option<bool>,
    pub force: Option<bool>,
    pub unwrap_errors: Option<bool>,
    pub verbose: Option<bool>,
    pub scale_up: Option<bool>,
    pub synchronous: Option<bool>,
    pub fix_times: Option<bool>,
    pub allow_links: Option<bool>,
    pub save_failures_to_ignore: Option<bool>,
    pub width: Option<u32>,
    pub columns: Option<u32>,
    pub rows: Option<u32>,
    pub skip: Option<u32>,
    pub threads: Option<u32>,
    pub out_dir: Option<String>,
}

/// The layer that overrides nothing.
pub open spec fn spec_empty_file_config() -> FileConfig {
    FileConfig {
        keep_files: None,
        force: None,
        unwrap_errors: None,
        verbose: None,
        scale_up: None,
        synchronous: None,
        fix_times: None,
        allow_links: None,
        save_failures_to_ignore: None,
        width: None,
        columns: None,
        rows: None,
        skip: None,
        threads: None,
        out_dir: None,
    }
}

/// Two layers combined: where the later one sets a field, it wins.
pub open spec fn spec_combine_file(a: FileConfig, b: FileConfig) -> FileConfig {
    FileConfig {
        keep_files: if b.keep_files is Some { b.keep_files } else { a.keep_files },
        force: if b.force is Some { b.force } else { a.force },
        unwrap_errors: if b.unwrap_errors is Some { b.unwrap_errors } else { a.unwrap_errors },
        verbose: if b.verbose is Some { b.verbose } else { a.verbose },
        scale_up: if b.scale_up is Some { b.scale_up } else { a.scale_up },
        synchronous: if b.synchronous is Some { b.synchronous } else { a.synchronous },
        fix_times: if b.fix_times is Some { b.fix_times } else { a.fix_times },
        allow_links: if b.allow_links is Some { b.allow_links } else { a.allow_links },
        save_failures_to_ignore: if b.save_failures_to_ignore is Some {
            b.save_failures_to_ignore
        } else {
            a.save_failures_to_ignore
        },
        width: if b.width is Some { b.width } else { a.width },
        columns: if b.columns is Some { b.columns } else { a.columns },
        rows: if b.rows is Some { b.rows } else { a.rows },
        skip: if b.skip is Some { b.skip } else { a.skip },
        threads: if b.threads is Some { b.threads } else { a.threads },
        out_dir: if b.out_dir is Some { b.out_dir } else { a.out_dir },
    }
}

/// All file layers folded into one, in order: later layers win.
pub open spec fn spec_fold_files(files: Seq<FileConfig>) -> FileConfig
    decreases files.len(),
{
    if files.len() == 0 {
        spec_empty_file_config()
    } else {
        spec_combine_file(spec_fold_files(files.drop_last()), files.last())
    }
}

proof fn lemma_fold_files_push(files: Seq<FileConfig>, f: FileConfig)
    ensures
        spec_fold_files(files.push(f)) == spec_combine_file(spec_fold_files(files), f),
{
    assert(files.push(f).drop_last() =~= files);
}

/// The resolved parameters of a run.
#[derive(Debug, Clone)]
pub struct Settings {
    pub keep_files: bool,
    pub force: bool,
    pub unwrap_errors: bool,
    pub verbose: bool,
    pub scale_up: bool,
    pub synchronous: bool,
    pub fix_times: bool,
    pub allow_links: bool,
    pub save_failures_to_ignore: bool,
    pub width: u32,
    pub columns: u32,
    pub rows: u32,
    pub skip: u32,
    pub threads: Option<u32>,
    pub out_dir: String,
    pub input: Vec<String>,
}

/// A boolean resolved from its default `false`, the folded file layers, and
/// the command-line flag: the flag forces `true`, else the last file that set
/// the field decides.
pub open spec fn spec_resolve_flag(file_val: Option<bool>, cli_flag: bool) -> bool {
    cli_flag || (file_val is Some && file_val->0)
}

/// A number resolved from its layers: the command line wins, then the last
/// file that set the field, then the default.
pub open spec fn spec_resolve_u32(default: u32, file_val: Option<u32>, cli_val: Option<u32>) -> u32 {
    if cli_val is Some {
        cli_val->0
    } else if file_val is Some {
        file_val->0
    } else {
        default
    }
}

impl Settings {
    /// Whether the parameters are usable by the pipeline: at least one column
    /// and row, a grid that fits a machine word, a skip ratio below one, and a
    /// width that leaves room for every column's margin.
    pub open spec fn wf(&self) -> bool {
        &&& 1 <= self.columns
        &&& 1 <= self.rows
        &&& self.columns * self.rows + 1 <= u32::MAX
        &&& self.skip <= 99
        &&& self.columns * 4 <= self.width
    }

    /// Resolves the layered configuration: defaults, then the file layers in
    /// order, then the command line.  The default grid is 12 by 12 cells cut
    /// from a sheet 3840 pixels wide, skipping the leading five percent of
    /// each video, writing into a directory named `screens`.
    pub fn load(cli: &Cli, files: &Vec<FileConfig>) -> (r: Self)
        ensures
            ({
                let f = spec_fold_files(files@);
                &&& r.keep_files == spec_resolve_flag(f.keep_files, cli.keep_files)
                &&& r.force == spec_resolve_flag(f.force, cli.force)
                &&& r.unwrap_errors == spec_resolve_flag(f.unwrap_errors, cli.unwrap_errors)
                &&& r.verbose == spec_resolve_flag(f.verbose, cli.verbose)
                &&& r.scale_up == spec_resolve_flag(f.scale_up, cli.scale_up)
                &&& r.synchronous == spec_resolve_flag(f.synchronous, cli.synchronous)
                &&& r.fix_times == spec_resolve_flag(f.fix_times, cli.fix_times)
                &&& r.allow_links == spec_resolve_flag(f.allow_links, cli.allow_links)
                &&& r.save_failures_to_ignore == spec_resolve_flag(
                    f.save_failures_to_ignore,
                    cli.save_failures_to_ignore,
                )
                &&& r.width == spec_resolve_u32(3840, f.width, cli.width)
                &&& r.columns == spec_resolve_u32(12, f.columns, cli.columns)
                &&& r.rows == spec_resolve_u32(12, f.rows, cli.rows)
                &&& r.skip == spec_resolve_u32(5, f.skip, cli.skip)
                &&& r.threads == (if cli.threads is Some {
                    cli.threads
                } else {
                    f.threads
                })
                &&& r.out_dir@ == (if cli.out_dir is Some {
                    cli.out_dir->0@
                } else if f.out_dir is Some {
                    f.out_dir->0@
                } else {
                    "screens"@
                })
                &&& r.input@ == cli.input@
            }),
    {
        let mut folded = FileConfig {
            keep_files: None,
            force: None,
            unwrap_errors: None,
            verbose: None,
            scale_up: None,
            synchronous: None,
            fix_times: None,
            allow_links: None,
            save_failures_to_ignore: None,
            width: None,
            columns: None,
            rows: None,
            skip: None,
            threads: None,
            out_dir: None,
        };
        let mut i: usize = 0;
        while i < files.len()
            invariant
                0 <= i <= files@.len(),
                folded == spec_fold_files(files@.subrange(0, i as int)),
            decreases files@.len() - i,
        {
            proof {
                assert(files@.subrange(0, i + 1) =~= files@.subrange(0, i as int).push(
                    files@[i as int],
                ));
                lemma_fold_files_push(files@.subrange(0, i as int), files@[i as int]);
            }
            folded = Self::combine_file(folded, &files[i]);
            i = i + 1;
        }
        proof {
            assert(files@.subrange(0, files@.len() as int) =~= files@);
        }
        let out_dir: String = if let Some(d) = &cli.out_dir {
            d.clone()
        } else if let Some(d) = &folded.out_dir {
            d.clone()
        } else {
            String::from_str("screens")
        };
        Settings {
            keep_files: cli.keep_files || folded.keep_files.unwrap_or(false),
            force: cli.force || folded.force.unwrap_or(false),
            unwrap_errors: cli.unwrap_errors || folded.unwrap_errors.unwrap_or(false),
            verbose: cli.verbose || folded.verbose.unwrap_or(false),
            scale_up: cli.scale_up || folded.scale_up.unwrap_or(false),
            synchronous: cli.synchronous || folded.synchronous.unwrap_or(false),
            fix_times: cli.fix_times || folded.fix_times.unwrap_or(false),
            allow_links: cli.allow_links || folded.allow_links.unwrap_or(false),
            save_failures_to_ignore: cli.save_failures_to_ignore
                || folded.save_failures_to_ignore.unwrap_or(false),
            width: Self::pick_u32(3840, folded.width, cli.width),
            columns: Self::pick_u32(12, folded.columns, cli.columns),
            rows: Self::pick_u32(12, folded.rows, cli.rows),
            skip: Self::pick_u32(5, folded.skip, cli.skip),
            threads: if cli.threads.is_some() {
                cli.threads
            } else {
                folded.threads
            },
            out_dir,
            input: cli.input.clone(),
        }
    }

    fn combine_file(a: FileConfig, b: &FileConfig) -> (r: FileConfig)
        ensures
            r == spec_combine_file(a, *b),
    {
        FileConfig {
            keep_files: if b.keep_files.is_some() { b.keep_files } else { a.keep_files },
            force: if b.force.is_some() { b.force } else { a.force },
            unwrap_errors: if b.unwrap_errors.is_some() { b.unwrap_errors } else { a.unwrap_errors },
            verbose: if b.verbose.is_some() { b.verbose } else { a.verbose },
            scale_up: if b.scale_up.is_some() { b.scale_up } else { a.scale_up },
            synchronous: if b.synchronous.is_some() { b.synchronous } else { a.synchronous },
            fix_times: if b.fix_times.is_some() { b.fix_times } else { a.fix_times },
            allow_links: if b.allow_links.is_some() { b.allow_links } else { a.allow_links },
            save_failures_to_ignore: if b.save_failures_to_ignore.is_some() {
                b.save_failures_to_ignore
            } else {
                a.save_failures_to_ignore
            },
            width: if b.width.is_some() { b.width } else { a.width },
            columns: if b.columns.is_some() { b.columns } else { a.columns },
            rows: if b.rows.is_some() { b.rows } else { a.rows },
            skip: if b.skip.is_some() { b.skip } else { a.skip },
            threads: if b.threads.is_some() { b.threads } else { a.threads },
            out_dir: match &b.out_dir {
                Some(d) => Some(d.clone()),
                None => a.out_dir,
            },
        }
    }

    fn pick_u32(default: u32, file_val: Option<u32>, cli_val: Option<u32>) -> (r: u32)
        ensures
            r == spec_resolve_u32(default, file_val, cli_val),
    {
        if let Some(v) = cli_val {
            v
        } else if let Some(v) = file_val {
            v
        } else {
            default
        }
    }

    /// Whether the resolved values are usable by the pipeline; a caller must
    /// check this before handing the settings to the capture functions.
    pub fn is_valid(&self) -> (r: bool)
        ensures
            r == self.wf(),
    {
        let c = self.columns as u64;
        let r = self.rows as u64;
        proof {
            assert(c * r <= 0xffff_ffffu64 * 0xffff_ffffu64) by (nonlinear_arith)
                requires
                    c <= 0xffff_ffffu64,
                    r <= 0xffff_ffffu64,
            ;
        }
        1 <= self.columns && 1 <= self.rows && c * r + 1 <= u32::MAX as u64 && self.skip <= 99
            && self.columns as u64 * 4 <= self.width as u64
    }

    /// One capture per grid cell, plus one extra leading capture.
    pub fn num_captures(&self) -> (r: u32)
        requires
            self.wf(),
        ensures
            r == self.columns * self.rows + 1,
    {
        (self.columns * self.rows) + 1
    }

    pub fn keep_files(&self) -> (r: bool)
        ensures
            r == self.keep_files,
    {
        self.keep_files
    }

    pub fn unwrap_errors(&self) -> (r: bool)
        ensures
            r == self.unwrap_errors,
    {
        self.unwrap_errors
    }

    pub fn force(&self) -> (r: bool)
        ensures
            r == self.force,
    {
        self.force
    }

    pub fn scale_up(&self) -> (r: bool)
        ensures
            r == self.scale_up,
    {
        self.scale_up
    }

    pub fn synchronous(&self) -> (r: bool)
        ensures
            r == self.synchronous,
    {
        self.synchronous
    }

    pub fn width(&self) -> (r: u32)
        ensures
            r == self.width,
    {
        self.width
    }

    pub fn save_failures_to_ignore(&self) -> (r: bool)
        ensures
            r == self.save_failures_to_ignore,
    {
        self.save_failures_to_ignore
    }

    pub fn verbose(&self) -> (r: bool)
        ensures
            r == self.verbose,
    {
        self.verbose
    }

    pub fn columns(&self) -> (r: u32)
        ensures
            r == self.columns,
    {
        self.columns
    }

    pub fn rows(&self) -> (r: u32)
        ensures
            r == self.rows,
    {
        self.rows
    }

    /// The percentage of the video to skip at its start.
    pub fn skip(&self) -> (r: u32)
        ensures
            r == self.skip,
    {
        self.skip
    }

    pub fn fix_times(&self) -> (r: bool)
        ensures
            r == self.fix_times,
    {
        self.fix_times
    }

    pub fn allow_links(&self) -> (r: bool)
        ensures
            r == self.allow_links,
    {
        self.allow_links
    }

    pub fn threads(&self) -> (r: Option<u32>)
        ensures
            r == self.threads,
    {
        self.threads
    }

    pub fn out_dir(&self) -> (r: &String)
        ensures
            r == &self.out_dir,
    {
        &self.out_dir
    }

    pub fn input(&self) -> (r: &Vec<String>)
        ensures
            r == &self.input,
    {
        &self.input
    }
}

} // verus!
