//! Formatter configuration: options, their enumerations and defaults.
use vstd::prelude::*;
use vstd::string::StringSliceAdditionalSpecFns;

verus! {

/// How to case command names, keywords or literals.
#[derive(Debug, Clone, Copy, PartialEq, Eq, Structural)]
pub enum CaseStyle {
    Lower,
    Upper,
    Preserve,
}

#[derive(Debug, Clone, Copy, PartialEq, Eq, Structural)]
pub enum WrapStyle {
    Cascade,
    Vertical,
}

#[derive(Debug, Clone, Copy, PartialEq, Eq, Structural)]
pub enum IndentStyle {
    Space,
    Tab,
}

#[derive(Debug, Clone, Copy, PartialEq, Eq, Structural)]
pub enum NewLineKind {
    Auto,
    Lf,
    CrLf,
}

#[derive(Debug, Clone, Copy, PartialEq, Eq, Structural)]
pub enum SpaceInsideParen {
    Insert,
    Remove,
    Preserve,
}

#[derive(Debug, Clone, Copy, PartialEq, Eq, Structural)]
pub enum CommentPreservation {
    Preserve,
    Reflow,
}

/// What to do with the arguments of block closers such as `endif(...)`.
#[derive(Debug, Clone, Copy, PartialEq, Eq, Structural)]
pub enum EndCommandArgs {
    Remove,
    Preserve,
    Match,
}

/// Whether to sort argument lists: never, always, or for the listed commands
/// and sections (lower-cased).
#[derive(Debug, Clone, PartialEq, Eq)]
pub enum SortArguments {
    Disabled,
    Enabled,
    CommandList(Vec<String>),
}

/// Whether to put a space before `(`: never, always, or for the listed
/// commands (lower-cased).
#[derive(Debug, Clone, PartialEq, Eq)]
pub enum SpaceBeforeParen {
    Never,
    Always,
    CommandList(Vec<String>),
}

/// Options that a single command may override.
#[derive(Debug, Clone, PartialEq, Eq)]
pub struct CommandConfiguration {
    pub line_width: Option<u32>,
    pub wrap_style: Option<WrapStyle>,
    pub first_arg_same_line: Option<bool>,
    pub wrap_arg_threshold: Option<u32>,
    pub indent_width: Option<u8>,
    pub indent_style: Option<IndentStyle>,
    pub continuation_indent_width: Option<u8>,
    pub command_case: Option<CaseStyle>,
    pub keyword_case: Option<CaseStyle>,
    pub custom_keywords: Option<Vec<String>>,
    pub literal_case: Option<CaseStyle>,
    pub closing_paren_newline: Option<bool>,
    pub space_before_paren: Option<SpaceBeforeParen>,
    pub space_inside_paren: Option<SpaceInsideParen>,
    pub comment_preservation: Option<CommentPreservation>,
    pub comment_width: Option<u32>,
    pub align_trailing_comments: Option<bool>,
    pub comment_gap: Option<u8>,
    pub align_property_values: Option<bool>,
    pub align_consecutive_set: Option<bool>,
    pub align_arg_groups: Option<bool>,
    pub sort_arguments: Option<SortArguments>,
    pub sort_keyword_sections: Option<bool>,
}

impl Default for CommandConfiguration {
    fn default() -> (c: Self)
        ensures
            c.line_width is None && c.wrap_style is None && c.first_arg_same_line is None
                && c.wrap_arg_threshold is None && c.indent_width is None && c.indent_style is None
                && c.continuation_indent_width is None && c.command_case is None
                && c.keyword_case is None && c.custom_keywords is None && c.literal_case is None
                && c.closing_paren_newline is None && c.space_before_paren is None
                && c.space_inside_paren is None && c.comment_preservation is None
                && c.comment_width is None && c.align_trailing_comments is None
                && c.comment_gap is None && c.align_property_values is None
                && c.align_consecutive_set is None && c.align_arg_groups is None
                && c.sort_arguments is None && c.sort_keyword_sections is None,
    {
        CommandConfiguration {
            line_width: None,
            wrap_style: None,
            first_arg_same_line: None,
            wrap_arg_threshold: None,
            indent_width: None,
            indent_style: None,
            continuation_indent_width: None,
            command_case: None,
            keyword_case: None,
            custom_keywords: None,
            literal_case: None,
            closing_paren_newline: None,
            space_before_paren: None,
            space_inside_paren: None,
            comment_preservation: None,
            comment_width: None,
            align_trailing_comments: None,
            comment_gap: None,
            align_property_values: None,
            align_consecutive_set: None,
            align_arg_groups: None,
            sort_arguments: None,
            sort_keyword_sections: None,
        }
    }
}

/// The complete set of formatting options.
#[derive(Debug, Clone)]
pub struct Configuration {
    pub line_width: u32,
    pub wrap_style: WrapStyle,
    pub first_arg_same_line: bool,
    pub wrap_arg_threshold: u32,
    pub indent_width: u8,
    pub use_tabs: bool,
    pub indent_style: IndentStyle,
    pub continuation_indent_width: Option<u8>,
    pub new_line_kind: NewLineKind,
    pub final_newline: bool,
    pub max_blank_lines: u8,
    pub min_blank_lines_between_blocks: u8,
    pub blank_line_between_sections: bool,
    pub command_case: CaseStyle,
    pub keyword_case: CaseStyle,
    pub custom_keywords: Vec<String>,
    pub literal_case: CaseStyle,
    pub closing_paren_newline: bool,
    pub space_before_paren: SpaceBeforeParen,
    pub space_inside_paren: SpaceInsideParen,
    pub comment_preservation: CommentPreservation,
    pub comment_width: Option<u32>,
    pub align_trailing_comments: bool,
    pub comment_gap: u8,
    pub trim_trailing_whitespace: bool,
    pub collapse_spaces: bool,
    pub align_property_values: bool,
    pub align_consecutive_set: bool,
    pub align_arg_groups: bool,
    /// Per-command overrides keyed by lower-cased command name, no key twice.
    pub per_command_config: Vec<(String, CommandConfiguration)>,
    pub sort_lists: bool,
    pub sort_arguments: SortArguments,
    pub sort_arguments_explicit: bool,
    pub sort_keyword_sections: bool,
    pub sort_keyword_sections_explicit: bool,
    pub disable_formatting: bool,
    pub ignore_patterns: Vec<String>,
    pub ignore_commands: Vec<String>,
    pub indent_block_body: bool,
    pub end_command_args: EndCommandArgs,
    pub extends: Option<String>,
}

impl Configuration {
    /// Width that reflowed comments wrap at: `comment_width`, else `line_width`.
    pub open spec fn spec_effective_comment_width(&self) -> u32 {
        match self.comment_width {
            Some(w) => w,
            None => self.line_width,
        }
    }

    pub fn effective_comment_width(&self) -> (w: u32)
        ensures
            w == self.spec_effective_comment_width(),
    {
        match self.comment_width {
            Some(w) => w,
            None => self.line_width,
        }
    }

    /// Indent of wrapped continuation lines: `continuation_indent_width`, else
    /// `indent_width`.
    pub fn effective_continuation_indent_width(&self) -> (w: u8)
        ensures
            w == match self.continuation_indent_width {
                Some(x) => x,
                None => self.indent_width,
            },
    {
        match self.continuation_indent_width {
            Some(w) => w,
            None => self.indent_width,
        }
    }
}

impl Default for Configuration {
    fn default() -> (c: Self)
        ensures
            c.line_width == 80,
            c.wrap_style == WrapStyle::Cascade,
            c.first_arg_same_line,
            c.wrap_arg_threshold == 0,
            c.indent_width == 2,
            !c.use_tabs,
            c.indent_style == IndentStyle::Space,
            c.continuation_indent_width is None,
            c.new_line_kind == NewLineKind::Auto,
            c.final_newline,
            c.max_blank_lines == 1,
            c.min_blank_lines_between_blocks == 0,
            !c.blank_line_between_sections,
            c.command_case == CaseStyle::Lower,
            c.keyword_case == CaseStyle::Upper,
            c.custom_keywords@.len() == 0,
            c.literal_case == CaseStyle::Preserve,
            c.closing_paren_newline,
            c.space_before_paren is Never,
            c.space_inside_paren == SpaceInsideParen::Remove,
            c.comment_preservation == CommentPreservation::Preserve,
            c.comment_width is None,
            !c.align_trailing_comments,
            c.comment_gap == 1,
            c.trim_trailing_whitespace,
            c.collapse_spaces,
            !c.align_property_values,
            !c.align_consecutive_set,
            !c.align_arg_groups,
            c.per_command_config@.len() == 0,
            !c.sort_lists,
            c.sort_arguments is Disabled,
            !c.sort_arguments_explicit,
            !c.sort_keyword_sections,
            !c.sort_keyword_sections_explicit,
            !c.disable_formatting,
            c.ignore_patterns@.len() == 0,
            c.ignore_commands@.len() == 0,
            c.indent_block_body,
            c.end_command_args == EndCommandArgs::Preserve,
            c.extends is None,
    {
        Configuration {
            line_width: 80,
            wrap_style: WrapStyle::Cascade,
            first_arg_same_line: true,
            wrap_arg_threshold: 0,
            indent_width: 2,
            use_tabs: false,
            indent_style: IndentStyle::Space,
            continuation_indent_width: None,
            new_line_kind: NewLineKind::Auto,
            final_newline: true,
            max_blank_lines: 1,
            min_blank_lines_between_blocks: 0,
            blank_line_between_sections: false,
            command_case: CaseStyle::Lower,
            keyword_case: CaseStyle::Upper,
            custom_keywords: Vec::new(),
            literal_case: CaseStyle::Preserve,
            closing_paren_newline: true,
            space_before_paren: SpaceBeforeParen::Never,
            space_inside_paren: SpaceInsideParen::Remove,
            comment_preservation: CommentPreservation::Preserve,
            comment_width: None,
            align_trailing_comments: false,
            comment_gap: 1,
            trim_trailing_whitespace: true,
            collapse_spaces: true,
            align_property_values: false,
            align_consecutive_set: false,
            align_arg_groups: false,
            per_command_config: Vec::new(),
            sort_lists: false,
            sort_arguments: SortArguments::Disabled,
            sort_arguments_explicit: false,
            sort_keyword_sections: false,
            sort_keyword_sections_explicit: false,
            disable_formatting: false,
            ignore_patterns: Vec::new(),
            ignore_commands: Vec::new(),
            indent_block_body: true,
            end_command_args: EndCommandArgs::Preserve,
            extends: None,
        }
    }
}

/// The bytes of a `String`.
pub open spec fn str_model(s: String) -> Seq<u8> {
    vstd::utf8::encode_utf8(s@)
}

#[verifier::opaque]
pub open spec fn strs_of(v: Seq<String>) -> Seq<Seq<u8>> {
    v.map_values(|s: String| str_model(s))
}

pub ghost enum SortModel {
    Disabled,
    Enabled,
    CommandList(Seq<Seq<u8>>),
}

pub ghost enum SpaceModel {
    Never,
    Always,
    CommandList(Seq<Seq<u8>>),
}

pub open spec fn sort_model(s: SortArguments) -> SortModel {
    match s {
        SortArguments::Disabled => SortModel::Disabled,
        SortArguments::Enabled => SortModel::Enabled,
        SortArguments::CommandList(v) => SortModel::CommandList(strs_of(v@)),
    }
}

pub open spec fn space_model(s: SpaceBeforeParen) -> SpaceModel {
    match s {
        SpaceBeforeParen::Never => SpaceModel::Never,
        SpaceBeforeParen::Always => SpaceModel::Always,
        SpaceBeforeParen::CommandList(v) => SpaceModel::CommandList(strs_of(v@)),
    }
}

/// The value of a `CommandConfiguration`, with text as bytes.
pub ghost struct CmdModel {
    pub line_width: Option<u32>,
    pub wrap_style: Option<WrapStyle>,
    pub first_arg_same_line: Option<bool>,
    pub wrap_arg_threshold: Option<u32>,
    pub indent_width: Option<u8>,
    pub indent_style: Option<IndentStyle>,
    pub continuation_indent_width: Option<u8>,
    pub command_case: Option<CaseStyle>,
    pub keyword_case: Option<CaseStyle>,
    pub custom_keywords: Option<Seq<Seq<u8>>>,
    pub literal_case: Option<CaseStyle>,
    pub closing_paren_newline: Option<bool>,
    pub space_before_paren: Option<SpaceModel>,
    pub space_inside_paren: Option<SpaceInsideParen>,
    pub comment_preservation: Option<CommentPreservation>,
    pub comment_width: Option<u32>,
    pub align_trailing_comments: Option<bool>,
    pub comment_gap: Option<u8>,
    pub align_property_values: Option<bool>,
    pub align_consecutive_set: Option<bool>,
    pub align_arg_groups: Option<bool>,
    pub sort_arguments: Option<SortModel>,
    pub sort_keyword_sections: Option<bool>,
}

impl CommandConfiguration {
    pub open spec fn model(&self) -> CmdModel {
        CmdModel {
            line_width: self.line_width,
            wrap_style: self.wrap_style,
            first_arg_same_line: self.first_arg_same_line,
            wrap_arg_threshold: self.wrap_arg_threshold,
            indent_width: self.indent_width,
            indent_style: self.indent_style,
            continuation_indent_width: self.continuation_indent_width,
            command_case: self.command_case,
            keyword_case: self.keyword_case,
            custom_keywords: match self.custom_keywords {
                Some(v) => Some(strs_of(v@)),
                None => None,
            },
            literal_case: self.literal_case,
            closing_paren_newline: self.closing_paren_newline,
            space_before_paren: match self.space_before_paren {
                Some(s) => Some(space_model(s)),
                None => None,
            },
            space_inside_paren: self.space_inside_paren,
            comment_preservation: self.comment_preservation,
            comment_width: self.comment_width,
            align_trailing_comments: self.align_trailing_comments,
            comment_gap: self.comment_gap,
            align_property_values: self.align_property_values,
            align_consecutive_set: self.align_consecutive_set,
            align_arg_groups: self.align_arg_groups,
            sort_arguments: match self.sort_arguments {
                Some(s) => Some(sort_model(s)),
                None => None,
            },
            sort_keyword_sections: self.sort_keyword_sections,
        }
    }
}

/// The per-command table: each command name with its options.
#[verifier::opaque]
pub open spec fn pcc_model(v: Seq<(String, CommandConfiguration)>) -> Seq<(Seq<u8>, CmdModel)> {
    v.map_values(|e: (String, CommandConfiguration)| (str_model(e.0), e.1.model()))
}

/// The value of a `Configuration`, with text as bytes.
pub ghost struct ConfigModel {
    pub line_width: u32,
    pub wrap_style: WrapStyle,
    pub first_arg_same_line: bool,
    pub wrap_arg_threshold: u32,
    pub indent_width: u8,
    pub use_tabs: bool,
    pub indent_style: IndentStyle,
    pub continuation_indent_width: Option<u8>,
    pub new_line_kind: NewLineKind,
    pub final_newline: bool,
    pub max_blank_lines: u8,
    pub min_blank_lines_between_blocks: u8,
    pub blank_line_between_sections: bool,
    pub command_case: CaseStyle,
    pub keyword_case: CaseStyle,
    pub custom_keywords: Seq<Seq<u8>>,
    pub literal_case: CaseStyle,
    pub closing_paren_newline: bool,
    pub space_before_paren: SpaceModel,
    pub space_inside_paren: SpaceInsideParen,
    pub comment_preservation: CommentPreservation,
    pub comment_width: Option<u32>,
    pub align_trailing_comments: bool,
    pub comment_gap: u8,
    pub trim_trailing_whitespace: bool,
    pub collapse_spaces: bool,
    pub align_property_values: bool,
    pub align_consecutive_set: bool,
    pub align_arg_groups: bool,
    pub per_command_config: Seq<(Seq<u8>, CmdModel)>,
    pub sort_lists: bool,
    pub sort_arguments: SortModel,
    pub sort_arguments_explicit: bool,
    pub sort_keyword_sections: bool,
    pub sort_keyword_sections_explicit: bool,
    pub disable_formatting: bool,
    pub ignore_patterns: Seq<Seq<u8>>,
    pub ignore_commands: Seq<Seq<u8>>,
    pub indent_block_body: bool,
    pub end_command_args: EndCommandArgs,
    pub extends: Option<Seq<u8>>,
}

impl Configuration {
    #[verifier::opaque]
    pub open spec fn model(&self) -> ConfigModel {
        ConfigModel {
            line_width: self.line_width,
            wrap_style: self.wrap_style,
            first_arg_same_line: self.first_arg_same_line,
            wrap_arg_threshold: self.wrap_arg_threshold,
            indent_width: self.indent_width,
            use_tabs: self.use_tabs,
            indent_style: self.indent_style,
            continuation_indent_width: self.continuation_indent_width,
            new_line_kind: self.new_line_kind,
            final_newline: self.final_newline,
            max_blank_lines: self.max_blank_lines,
            min_blank_lines_between_blocks: self.min_blank_lines_between_blocks,
            blank_line_between_sections: self.blank_line_between_sections,
            command_case: self.command_case,
            keyword_case: self.keyword_case,
            custom_keywords: strs_of(self.custom_keywords@),
            literal_case: self.literal_case,
            closing_paren_newline: self.closing_paren_newline,
            space_before_paren: space_model(self.space_before_paren),
            space_inside_paren: self.space_inside_paren,
            comment_preservation: self.comment_preservation,
            comment_width: self.comment_width,
            align_trailing_comments: self.align_trailing_comments,
            comment_gap: self.comment_gap,
            trim_trailing_whitespace: self.trim_trailing_whitespace,
            collapse_spaces: self.collapse_spaces,
            align_property_values: self.align_property_values,
            align_consecutive_set: self.align_consecutive_set,
            align_arg_groups: self.align_arg_groups,
            per_command_config: pcc_model(self.per_command_config@),
            sort_lists: self.sort_lists,
            sort_arguments: sort_model(self.sort_arguments),
            sort_arguments_explicit: self.sort_arguments_explicit,
            sort_keyword_sections: self.sort_keyword_sections,
            sort_keyword_sections_explicit: self.sort_keyword_sections_explicit,
            disable_formatting: self.disable_formatting,
            ignore_patterns: strs_of(self.ignore_patterns@),
            ignore_commands: strs_of(self.ignore_commands@),
            indent_block_body: self.indent_block_body,
            end_command_args: self.end_command_args,
            extends: match self.extends {
                Some(e) => Some(str_model(e)),
                None => None,
            },
        }
    }
}

/// A copy of a list of strings.
pub fn copy_strings(v: &Vec<String>) -> (r: Vec<String>)
    ensures
        strs_of(r@) == strs_of(v@),
{
    let mut out: Vec<String> = Vec::new();
    let mut i: usize = 0;
    proof {
        reveal(strs_of);
        assert(strs_of(out@) =~= strs_of(v@).take(0));
    }
    while i < v.len()
        invariant
            i <= v@.len(),
            strs_of(out@) == strs_of(v@).take(i as int),
        decreases v@.len() - i,
    {
        let ghost o = out@;
        let c = v[i].clone();
        out.push(c);
        i = i + 1;
        proof {
            reveal(strs_of);
            assert(strs_of(out@) =~= strs_of(o).push(str_model(c)));
            reveal(strs_of);
            assert(strs_of(v@).take(i as int) =~= strs_of(v@).take(i - 1).push(str_model(v@[i - 1])));
        }
    }
    proof {
        reveal(strs_of);
        assert(strs_of(v@).take(v@.len() as int) =~= strs_of(v@));
    }
    out
}

pub fn copy_sort(s: &SortArguments) -> (r: SortArguments)
    ensures
        sort_model(r) == sort_model(*s),
{
    match s {
        SortArguments::Disabled => SortArguments::Disabled,
        SortArguments::Enabled => SortArguments::Enabled,
        SortArguments::CommandList(v) => SortArguments::CommandList(copy_strings(v)),
    }
}

pub fn copy_space(s: &SpaceBeforeParen) -> (r: SpaceBeforeParen)
    ensures
        space_model(r) == space_model(*s),
{
    match s {
        SpaceBeforeParen::Never => SpaceBeforeParen::Never,
        SpaceBeforeParen::Always => SpaceBeforeParen::Always,
        SpaceBeforeParen::CommandList(v) => SpaceBeforeParen::CommandList(copy_strings(v)),
    }
}

impl CommandConfiguration {
    /// A copy with the same options.
    pub fn copy(&self) -> (r: CommandConfiguration)
        ensures
            r.model() == self.model(),
    {
        CommandConfiguration {
            line_width: self.line_width,
            wrap_style: self.wrap_style,
            first_arg_same_line: self.first_arg_same_line,
            wrap_arg_threshold: self.wrap_arg_threshold,
            indent_width: self.indent_width,
            indent_style: self.indent_style,
            continuation_indent_width: self.continuation_indent_width,
            command_case: self.command_case,
            keyword_case: self.keyword_case,
            custom_keywords: match &self.custom_keywords {
                Some(v) => Some(copy_strings(v)),
                None => None,
            },
            literal_case: self.literal_case,
            closing_paren_newline: self.closing_paren_newline,
            space_before_paren: match &self.space_before_paren {
                Some(v) => Some(copy_space(v)),
                None => None,
            },
            space_inside_paren: self.space_inside_paren,
            comment_preservation: self.comment_preservation,
            comment_width: self.comment_width,
            align_trailing_comments: self.align_trailing_comments,
            comment_gap: self.comment_gap,
            align_property_values: self.align_property_values,
            align_consecutive_set: self.align_consecutive_set,
            align_arg_groups: self.align_arg_groups,
            sort_arguments: match &self.sort_arguments {
                Some(v) => Some(copy_sort(v)),
                None => None,
            },
            sort_keyword_sections: self.sort_keyword_sections,
        }
    }
}

/// A copy of the per-command table.
pub fn copy_pcc(v: &Vec<(String, CommandConfiguration)>) -> (r: Vec<(String, CommandConfiguration)>)
    ensures
        r@.len() == v@.len(),
        forall|k: int| 0 <= k < v@.len() ==> str_model((#[trigger] r@[k]).0) == str_model(v@[k].0) && r@[k].1.model() == v@[k].1.model(),
        pcc_model(r@) == pcc_model(v@),
{
    let mut out: Vec<(String, CommandConfiguration)> = Vec::new();
    let mut i: usize = 0;
    while i < v.len()
        invariant
            i <= v@.len(),
            out@.len() == i,
            forall|k: int| 0 <= k < i ==> str_model((#[trigger] out@[k]).0) == str_model(v@[k].0) && out@[k].1.model() == v@[k].1.model(),
        decreases v@.len() - i,
    {
        let e = (v[i].0.clone(), v[i].1.copy());
        out.push(e);
        i = i + 1;
    }
    proof {
        reveal(pcc_model);
        assert(pcc_model(out@) =~= pcc_model(v@));
    }
    out
}

impl Configuration {
    /// A copy with the same options.
    pub fn copy(&self) -> (r: Configuration)
        ensures
            r.model() == self.model(),
    {
        proof {
            reveal(Configuration::model);
        }
        Configuration {
            line_width: self.line_width,
            wrap_style: self.wrap_style,
            first_arg_same_line: self.first_arg_same_line,
            wrap_arg_threshold: self.wrap_arg_threshold,
            indent_width: self.indent_width,
            use_tabs: self.use_tabs,
            indent_style: self.indent_style,
            continuation_indent_width: self.continuation_indent_width,
            new_line_kind: self.new_line_kind,
            final_newline: self.final_newline,
            max_blank_lines: self.max_blank_lines,
            min_blank_lines_between_blocks: self.min_blank_lines_between_blocks,
            blank_line_between_sections: self.blank_line_between_sections,
            command_case: self.command_case,
            keyword_case: self.keyword_case,
            custom_keywords: copy_strings(&self.custom_keywords),
            literal_case: self.literal_case,
            closing_paren_newline: self.closing_paren_newline,
            space_before_paren: copy_space(&self.space_before_paren),
            space_inside_paren: self.space_inside_paren,
            comment_preservation: self.comment_preservation,
            comment_width: self.comment_width,
            align_trailing_comments: self.align_trailing_comments,
            comment_gap: self.comment_gap,
            trim_trailing_whitespace: self.trim_trailing_whitespace,
            collapse_spaces: self.collapse_spaces,
            align_property_values: self.align_property_values,
            align_consecutive_set: self.align_consecutive_set,
            align_arg_groups: self.align_arg_groups,
            per_command_config: copy_pcc(&self.per_command_config),
            sort_lists: self.sort_lists,
            sort_arguments: copy_sort(&self.sort_arguments),
            sort_arguments_explicit: self.sort_arguments_explicit,
            sort_keyword_sections: self.sort_keyword_sections,
            sort_keyword_sections_explicit: self.sort_keyword_sections_explicit,
            disable_formatting: self.disable_formatting,
            ignore_patterns: copy_strings(&self.ignore_patterns),
            ignore_commands: copy_strings(&self.ignore_commands),
            indent_block_body: self.indent_block_body,
            end_command_args: self.end_command_args,
            extends: match &self.extends {
                Some(e) => Some(e.clone()),
                None => None,
            },
        }
    }
}


impl Configuration {
    /// The options given to command `name` (the table's names are
    /// lower-case), if the table has an entry for it.
    pub fn command_config(&self, name: &str) -> (r: Option<&CommandConfiguration>)
        ensures
            match r {
                Some(c) => exists|i: int|
                    0 <= i < self.per_command_config@.len() && str_model(self.per_command_config@[i].0) == name.spec_bytes()
                        && *c == self.per_command_config@[i].1,
                None => forall|i: int|
                    0 <= i < self.per_command_config@.len() ==> str_model(#[trigger] self.per_command_config@[i].0) != name.spec_bytes(),
            },
    {
        let mut i: usize = 0;
        while i < self.per_command_config.len()
            invariant
                i <= self.per_command_config@.len(),
                forall|j: int| 0 <= j < i ==> str_model(#[trigger] self.per_command_config@[j].0) != name.spec_bytes(),
            decreases self.per_command_config@.len() - i,
        {
            if crate::text::eq_bytes(self.per_command_config[i].0.as_str().as_bytes(), name.as_bytes()) {
                return Some(&self.per_command_config[i].1);
            }
            i = i + 1;
        }
        None
    }
}

} // verus!
