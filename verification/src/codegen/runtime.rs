//! The runtime-support routines emitted into every compiled module, and the
//! bounds rule the emitted substring routine implements.
//!
//! The string and conversion helpers are null-safe by contract: a null
//! string operand behaves as the empty string (concatenation, length), an
//! out-of-range character index yields a zero byte, a missing needle yields
//! `-1` and an empty needle `0`, and substring clamps its bounds into
//! `[0, length]`, yielding the empty string when they cross.

use vstd::prelude::*;
use crate::codegen::context::{lines_view, IRGenerator};

verus! {

/// The clamped `(begin, end)` bounds of `substring(begin, end)` on a string
/// of length `len`: a negative begin is raised to zero, an end past the
/// length is lowered to it, and a begin past the clamped end collapses onto
/// it, so the selected range is always empty rather than reversed.
pub open spec fn substring_bounds_spec(begin: int, end: int, len: int) -> (int, int) {
    let b1 = if begin < 0 {
        0
    } else {
        begin
    };
    let e1 = if end > len {
        len
    } else {
        end
    };
    let b2 = if b1 > e1 {
        e1
    } else {
        b1
    };
    (b2, e1)
}

/// The bounds rule, as computed by the emitted substring routine.
pub fn substring_bounds(begin: i32, end: i32, len: i32) -> (r: (i32, i32))
    ensures
        (r.0 as int, r.1 as int) == substring_bounds_spec(begin as int, end as int, len as int),
{
    let b1: i32 = if begin < 0 {
        0
    } else {
        begin
    };
    let e1: i32 = if end > len {
        len
    } else {
        end
    };
    let b2: i32 = if b1 > e1 {
        e1
    } else {
        b1
    };
    (b2, e1)
}

/// Out-of-range bounds clamp into the string: for any length, a begin of
/// `-3` and an end of `length + 5` clamp to the whole string.
pub proof fn lemma_substring_bounds_clamp(len: int)
    requires
        len >= 0,
    ensures
        substring_bounds_spec(-3, len + 5, len) == (0int, len),
{
}

/// A begin past the end selects the empty range instead of failing.
pub proof fn lemma_substring_bounds_reversed(begin: int, end: int, len: int)
    requires
        begin > end,
    ensures
        ({
            let b = substring_bounds_spec(begin, end, len);
            b.1 - b.0 == 0
        }),
{
}

/// The clamped range always sits inside `[0, len]` and is never reversed.
pub proof fn lemma_substring_bounds_in_range(begin: int, end: int, len: int)
    requires
        len >= 0,
        end >= 0,
    ensures
        ({
            let b = substring_bounds_spec(begin, end, len);
            0 <= b.0 <= b.1 <= len
        }),
{
}

/// External declarations and constants shared by the runtime routines.
pub open spec fn runtime_decl_lines() -> Seq<Seq<char>> {
    seq![
        "; EOL (Ethernos Object Language) Generated LLVM IR"@,
        "target triple = \"x86_64-w64-mingw32\""@,
        "declare i32 @printf(i8*, ...)"@,
        "declare i32 @scanf(i8*, ...)"@,
        "declare void @SetConsoleOutputCP(i32)"@,
        "declare i64 @strlen(i8*)"@,
        "declare i8* @calloc(i64, i64)"@,
        "declare void @llvm.memcpy.p0i8.p0i8.i64(i8* noalias nocapture writeonly, i8* noalias nocapture readonly, i64, i1 immarg)"@,
        "declare i32 @snprintf(i8*, i64, i8*, ...)"@,
        "@.str.float_fmt = private unnamed_addr constant [3 x i8] c\"%f\\00\", align 1"@,
        "@.eol_empty_str = private unnamed_addr constant [1 x i8] c\"\\00\", align 1"@,
    ]
}

/// The extra constants only the full header declares.
pub open spec fn runtime_extra_decl_lines() -> Seq<Seq<char>> {
    seq![
        "@.str.int_fmt = private unnamed_addr constant [5 x i8] c\"%lld\\00\", align 1"@,
        "@.str.true_str = private unnamed_addr constant [5 x i8] c\"true\\00\", align 1"@,
        "@.str.false_str = private unnamed_addr constant [6 x i8] c\"false\\00\", align 1"@,
    ]
}

/// Null-safe string concatenation: null operands read as empty, and an
/// allocation failure returns the static empty string instead of crashing.
pub open spec fn concat_runtime_lines() -> Seq<Seq<char>> {
    seq![
        "define i8* @__eol_string_concat(i8* %a, i8* %b) {"@,
        "entry:"@,
        "  %a_is_null = icmp eq i8* %a, null"@,
        "  %a_ptr = select i1 %a_is_null, i8* getelementptr ([1 x i8], [1 x i8]* @.eol_empty_str, i64 0, i64 0), i8* %a"@,
        "  %b_is_null = icmp eq i8* %b, null"@,
        "  %b_ptr = select i1 %b_is_null, i8* getelementptr ([1 x i8], [1 x i8]* @.eol_empty_str, i64 0, i64 0), i8* %b"@,
        "  %len_a = call i64 @strlen(i8* %a_ptr)"@,
        "  %len_b = call i64 @strlen(i8* %b_ptr)"@,
        "  %total_len = add i64 %len_a, %len_b"@,
        "  %buf_size = add i64 %total_len, 1"@,
        "  %result = call i8* @calloc(i64 1, i64 %buf_size)"@,
        "  %is_null = icmp eq i8* %result, null"@,
        "  br i1 %is_null, label %fail, label %copy"@,
        "fail:"@,
        "  ret i8* getelementptr ([1 x i8], [1 x i8]* @.eol_empty_str, i64 0, i64 0)"@,
        "copy:"@,
        "  call void @llvm.memcpy.p0i8.p0i8.i64(i8* %result, i8* %a_ptr, i64 %len_a, i1 false)"@,
        "  %dest_b = getelementptr i8, i8* %result, i64 %len_a"@,
        "  call void @llvm.memcpy.p0i8.p0i8.i64(i8* %dest_b, i8* %b_ptr, i64 %len_b, i1 false)"@,
        "  %end_ptr = getelementptr i8, i8* %result, i64 %total_len"@,
        "  store i8 0, i8* %end_ptr"@,
        "  ret i8* %result"@,
        "}"@,
    ]
}

/// Decimal formatting of a float into an owned 64-byte buffer.
pub open spec fn float_to_string_lines() -> Seq<Seq<char>> {
    seq![
        "define i8* @__eol_float_to_string(double %value) {"@,
        "entry:"@,
        "  %buf = call i8* @calloc(i64 1, i64 64)"@,
        "  %fmt_ptr = getelementptr [3 x i8], [3 x i8]* @.str.float_fmt, i64 0, i64 0"@,
        "  call i32 (i8*, i64, i8*, ...) @snprintf(i8* %buf, i64 64, i8* %fmt_ptr, double %value)"@,
        "  ret i8* %buf"@,
        "}"@,
    ]
}

/// Decimal formatting of a 64-bit integer into an owned buffer.
pub open spec fn int_to_string_lines() -> Seq<Seq<char>> {
    seq![
        "define i8* @__eol_int_to_string(i64 %value) {"@,
        "entry:"@,
        "  %buf = call i8* @calloc(i64 1, i64 32)"@,
        "  call i32 (i8*, i64, i8*, ...) @snprintf(i8* %buf, i64 32, i8* getelementptr ([5 x i8], [5 x i8]* @.str.int_fmt, i64 0, i64 0), i64 %value)"@,
        "  ret i8* %buf"@,
        "}"@,
    ]
}

/// The static `"true"` / `"false"` literals for a boolean.
pub open spec fn bool_to_string_lines() -> Seq<Seq<char>> {
    seq![
        "define i8* @__cay_bool_to_string(i1 %value) {"@,
        "entry:"@,
        "  br i1 %value, label %true_case, label %false_case"@,
        "true_case:"@,
        "  ret i8* getelementptr ([5 x i8], [5 x i8]* @.str.true_str, i64 0, i64 0)"@,
        "false_case:"@,
        "  ret i8* getelementptr ([6 x i8], [6 x i8]* @.str.false_str, i64 0, i64 0)"@,
        "}"@,
    ]
}

/// A one-character owned buffer for a character value.
pub open spec fn char_to_string_lines() -> Seq<Seq<char>> {
    seq![
        "define i8* @__eol_char_to_string(i8 %value) {"@,
        "entry:"@,
        "  %buf = call i8* @calloc(i64 1, i64 2)"@,
        "  store i8 %value, i8* %buf"@,
        "  %end_ptr = getelementptr i8, i8* %buf, i64 1"@,
        "  store i8 0, i8* %end_ptr"@,
        "  ret i8* %buf"@,
        "}"@,
    ]
}

/// Null-safe string length: a null input has length zero.
pub open spec fn string_length_lines() -> Seq<Seq<char>> {
    seq![
        "define i32 @__cay_string_length(i8* %str) {"@,
        "entry:"@,
        "  %is_null = icmp eq i8* %str, null"@,
        "  br i1 %is_null, label %null_case, label %normal_case"@,
        "null_case:"@,
        "  ret i32 0"@,
        "normal_case:"@,
        "  %len = call i64 @strlen(i8* %str)"@,
        "  %len_i32 = trunc i64 %len to i32"@,
        "  ret i32 %len_i32"@,
        "}"@,
    ]
}

/// Null-safe substring with the bounds rule of [`substring_bounds_spec`].
pub open spec fn string_substring_lines() -> Seq<Seq<char>> {
    seq![
        "define i8* @__eol_string_substring(i8* %str, i32 %begin, i32 %end) {"@,
        "entry:"@,
        "  %is_null = icmp eq i8* %str, null"@,
        "  br i1 %is_null, label %null_case, label %check_bounds"@,
        "null_case:"@,
        "  ret i8* getelementptr ([1 x i8], [1 x i8]* @.eol_empty_str, i64 0, i64 0)"@,
        "check_bounds:"@,
        "  %total_len = call i64 @strlen(i8* %str)"@,
        "  %total_len_i32 = trunc i64 %total_len to i32"@,
        "  %begin_neg = icmp slt i32 %begin, 0"@,
        "  %begin_final = select i1 %begin_neg, i32 0, i32 %begin"@,
        "  %end_too_large = icmp sgt i32 %end, %total_len_i32"@,
        "  %end_final = select i1 %end_too_large, i32 %total_len_i32, i32 %end"@,
        "  %begin_gt_end = icmp sgt i32 %begin_final, %end_final"@,
        "  %begin_clamped = select i1 %begin_gt_end, i32 %end_final, i32 %begin_final"@,
        "  %sub_len = sub i32 %end_final, %begin_clamped"@,
        "  %sub_len_i64 = sext i32 %sub_len to i64"@,
        "  %buf_size = add i64 %sub_len_i64, 1"@,
        "  %result = call i8* @calloc(i64 1, i64 %buf_size)"@,
        "  %begin_i64 = sext i32 %begin_clamped to i64"@,
        "  %src_ptr = getelementptr i8, i8* %str, i64 %begin_i64"@,
        "  call void @llvm.memcpy.p0i8.p0i8.i64(i8* %result, i8* %src_ptr, i64 %sub_len_i64, i1 false)"@,
        "  %end_ptr = getelementptr i8, i8* %result, i64 %sub_len_i64"@,
        "  store i8 0, i8* %end_ptr"@,
        "  ret i8* %result"@,
        "}"@,
    ]
}

/// Null-safe substring search: `-1` for not found, `0` for an empty needle.
pub open spec fn string_indexof_lines() -> Seq<Seq<char>> {
    seq![
        "define i32 @__eol_string_indexof(i8* %str, i8* %substr) {"@,
        "entry:"@,
        "  %str_null = icmp eq i8* %str, null"@,
        "  %substr_null = icmp eq i8* %substr, null"@,
        "  %either_null = or i1 %str_null, %substr_null"@,
        "  br i1 %either_null, label %not_found, label %search"@,
        "not_found:"@,
        "  ret i32 -1"@,
        "search:"@,
        "  %str_len = call i64 @strlen(i8* %str)"@,
        "  %substr_len = call i64 @strlen(i8* %substr)"@,
        "  %substr_empty = icmp eq i64 %substr_len, 0"@,
        "  br i1 %substr_empty, label %found_at_0, label %loop_setup"@,
        "found_at_0:"@,
        "  ret i32 0"@,
        "loop_setup:"@,
        "  %substr_too_long = icmp sgt i64 %substr_len, %str_len"@,
        "  br i1 %substr_too_long, label %not_found, label %loop_start"@,
        "loop_start:"@,
        "  %max_pos = sub i64 %str_len, %substr_len"@,
        "  br label %loop_check"@,
        "loop_check:"@,
        "  %i = phi i64 [0, %loop_start], [%i_next, %loop_continue]"@,
        "  %i_le_max = icmp sle i64 %i, %max_pos"@,
        "  br i1 %i_le_max, label %loop_body, label %not_found"@,
        "loop_body:"@,
        "  %curr_ptr = getelementptr i8, i8* %str, i64 %i"@,
        "  %cmp_result = call i32 @strncmp(i8* %curr_ptr, i8* %substr, i64 %substr_len)"@,
        "  %found = icmp eq i32 %cmp_result, 0"@,
        "  br i1 %found, label %found_match, label %loop_continue"@,
        "found_match:"@,
        "  %result_i32 = trunc i64 %i to i32"@,
        "  ret i32 %result_i32"@,
        "loop_continue:"@,
        "  %i_next = add i64 %i, 1"@,
        "  br label %loop_check"@,
        "}"@,
        "declare i32 @strncmp(i8*, i8*, i64)"@,
    ]
}

/// Null-safe character access: any out-of-range index yields a zero byte.
pub open spec fn string_charat_lines() -> Seq<Seq<char>> {
    seq![
        "define i8 @__eol_string_charat(i8* %str, i32 %index) {"@,
        "entry:"@,
        "  %is_null = icmp eq i8* %str, null"@,
        "  br i1 %is_null, label %out_of_bounds, label %check_bounds"@,
        "check_bounds:"@,
        "  %len = call i64 @strlen(i8* %str)"@,
        "  %len_i32 = trunc i64 %len to i32"@,
        "  %index_neg = icmp slt i32 %index, 0"@,
        "  %index_too_large = icmp sge i32 %index, %len_i32"@,
        "  %out_of_range = or i1 %index_neg, %index_too_large"@,
        "  br i1 %out_of_range, label %out_of_bounds, label %get_char"@,
        "out_of_bounds:"@,
        "  ret i8 0"@,
        "get_char:"@,
        "  %idx_i64 = sext i32 %index to i64"@,
        "  %char_ptr = getelementptr i8, i8* %str, i64 %idx_i64"@,
        "  %char_val = load i8, i8* %char_ptr"@,
        "  ret i8 %char_val"@,
        "}"@,
    ]
}

/// Everything the legacy header emits: the shared declarations plus the
/// concatenation and float-formatting routines.
pub open spec fn header_lines() -> Seq<Seq<char>> {
    runtime_decl_lines() + concat_runtime_lines() + float_to_string_lines()
}

/// Everything the full header emits: all declarations and every runtime
/// routine.
pub open spec fn full_header_lines() -> Seq<Seq<char>> {
    runtime_decl_lines() + runtime_extra_decl_lines() + concat_runtime_lines()
        + float_to_string_lines() + int_to_string_lines() + bool_to_string_lines()
        + char_to_string_lines() + string_length_lines() + string_substring_lines()
        + string_indexof_lines() + string_charat_lines()
}

impl IRGenerator {
    /// Emits the shared external declarations and constants.
    pub fn emit_runtime_decls(&mut self)
        ensures
            *final(self) == (IRGenerator { output: final(self).output, ..*old(self) }),
            lines_view(final(self).output@) == lines_view(old(self).output@)
                + runtime_decl_lines(),
    {
        self.emit_raw("; EOL (Ethernos Object Language) Generated LLVM IR");
        self.emit_raw("target triple = \"x86_64-w64-mingw32\"");
        self.emit_raw("declare i32 @printf(i8*, ...)");
        self.emit_raw("declare i32 @scanf(i8*, ...)");
        self.emit_raw("declare void @SetConsoleOutputCP(i32)");
        self.emit_raw("declare i64 @strlen(i8*)");
        self.emit_raw("declare i8* @calloc(i64, i64)");
        self.emit_raw(
            "declare void @llvm.memcpy.p0i8.p0i8.i64(i8* noalias nocapture writeonly, i8* noalias nocapture readonly, i64, i1 immarg)",
        );
        self.emit_raw("declare i32 @snprintf(i8*, i64, i8*, ...)");
        self.emit_raw("@.str.float_fmt = private unnamed_addr constant [3 x i8] c\"%f\\00\", align 1");
        self.emit_raw("@.eol_empty_str = private unnamed_addr constant [1 x i8] c\"\\00\", align 1");
        proof {
            assert(lines_view(final(self).output@) =~= lines_view(old(self).output@)
                + runtime_decl_lines());
        }
    }

    /// Emits the constants only the full header declares.
    pub fn emit_extra_decls(&mut self)
        ensures
            *final(self) == (IRGenerator { output: final(self).output, ..*old(self) }),
            lines_view(final(self).output@) == lines_view(old(self).output@)
                + runtime_extra_decl_lines(),
    {
        self.emit_raw("@.str.int_fmt = private unnamed_addr constant [5 x i8] c\"%lld\\00\", align 1");
        self.emit_raw("@.str.true_str = private unnamed_addr constant [5 x i8] c\"true\\00\", align 1");
        self.emit_raw(
            "@.str.false_str = private unnamed_addr constant [6 x i8] c\"false\\00\", align 1",
        );
        proof {
            assert(lines_view(final(self).output@) =~= lines_view(old(self).output@)
                + runtime_extra_decl_lines());
        }
    }

    /// Emits the null-safe string-concatenation routine.
    pub fn emit_string_concat_runtime(&mut self)
        ensures
            *final(self) == (IRGenerator { output: final(self).output, ..*old(self) }),
            lines_view(final(self).output@) == lines_view(old(self).output@)
                + concat_runtime_lines(),
    {
        self.emit_raw("define i8* @__eol_string_concat(i8* %a, i8* %b) {");
        self.emit_raw("entry:");
        self.emit_raw("  %a_is_null = icmp eq i8* %a, null");
        self.emit_raw(
            "  %a_ptr = select i1 %a_is_null, i8* getelementptr ([1 x i8], [1 x i8]* @.eol_empty_str, i64 0, i64 0), i8* %a",
        );
        self.emit_raw("  %b_is_null = icmp eq i8* %b, null");
        self.emit_raw(
            "  %b_ptr = select i1 %b_is_null, i8* getelementptr ([1 x i8], [1 x i8]* @.eol_empty_str, i64 0, i64 0), i8* %b",
        );
        self.emit_raw("  %len_a = call i64 @strlen(i8* %a_ptr)");
        self.emit_raw("  %len_b = call i64 @strlen(i8* %b_ptr)");
        self.emit_raw("  %total_len = add i64 %len_a, %len_b");
        self.emit_raw("  %buf_size = add i64 %total_len, 1");
        self.emit_raw("  %result = call i8* @calloc(i64 1, i64 %buf_size)");
        self.emit_raw("  %is_null = icmp eq i8* %result, null");
        self.emit_raw("  br i1 %is_null, label %fail, label %copy");
        self.emit_raw("fail:");
        self.emit_raw("  ret i8* getelementptr ([1 x i8], [1 x i8]* @.eol_empty_str, i64 0, i64 0)");
        self.emit_raw("copy:");
        self.emit_raw(
            "  call void @llvm.memcpy.p0i8.p0i8.i64(i8* %result, i8* %a_ptr, i64 %len_a, i1 false)",
        );
        self.emit_raw("  %dest_b = getelementptr i8, i8* %result, i64 %len_a");
        self.emit_raw(
            "  call void @llvm.memcpy.p0i8.p0i8.i64(i8* %dest_b, i8* %b_ptr, i64 %len_b, i1 false)",
        );
        self.emit_raw("  %end_ptr = getelementptr i8, i8* %result, i64 %total_len");
        self.emit_raw("  store i8 0, i8* %end_ptr");
        self.emit_raw("  ret i8* %result");
        self.emit_raw("}");
        proof {
            assert(lines_view(final(self).output@) =~= lines_view(old(self).output@)
                + concat_runtime_lines());
        }
    }

    /// Emits the float-formatting routine.
    pub fn emit_float_to_string_runtime(&mut self)
        ensures
            *final(self) == (IRGenerator { output: final(self).output, ..*old(self) }),
            lines_view(final(self).output@) == lines_view(old(self).output@)
                + float_to_string_lines(),
    {
        self.emit_raw("define i8* @__eol_float_to_string(double %value) {");
        self.emit_raw("entry:");
        self.emit_raw("  %buf = call i8* @calloc(i64 1, i64 64)");
        self.emit_raw("  %fmt_ptr = getelementptr [3 x i8], [3 x i8]* @.str.float_fmt, i64 0, i64 0");
        self.emit_raw(
            "  call i32 (i8*, i64, i8*, ...) @snprintf(i8* %buf, i64 64, i8* %fmt_ptr, double %value)",
        );
        self.emit_raw("  ret i8* %buf");
        self.emit_raw("}");
        proof {
            assert(lines_view(final(self).output@) =~= lines_view(old(self).output@)
                + float_to_string_lines());
        }
    }

    /// Emits the integer-formatting routine.
    pub fn emit_int_to_string_runtime(&mut self)
        ensures
            *final(self) == (IRGenerator { output: final(self).output, ..*old(self) }),
            lines_view(final(self).output@) == lines_view(old(self).output@)
                + int_to_string_lines(),
    {
        self.emit_raw("define i8* @__eol_int_to_string(i64 %value) {");
        self.emit_raw("entry:");
        self.emit_raw("  %buf = call i8* @calloc(i64 1, i64 32)");
        self.emit_raw(
            "  call i32 (i8*, i64, i8*, ...) @snprintf(i8* %buf, i64 32, i8* getelementptr ([5 x i8], [5 x i8]* @.str.int_fmt, i64 0, i64 0), i64 %value)",
        );
        self.emit_raw("  ret i8* %buf");
        self.emit_raw("}");
        proof {
            assert(lines_view(final(self).output@) =~= lines_view(old(self).output@)
                + int_to_string_lines());
        }
    }

    /// Emits the boolean-formatting routine.
    pub fn emit_bool_to_string_runtime(&mut self)
        ensures
            *final(self) == (IRGenerator { output: final(self).output, ..*old(self) }),
            lines_view(final(self).output@) == lines_view(old(self).output@)
                + bool_to_string_lines(),
    {
        self.emit_raw("define i8* @__cay_bool_to_string(i1 %value) {");
        self.emit_raw("entry:");
        self.emit_raw("  br i1 %value, label %true_case, label %false_case");
        self.emit_raw("true_case:");
        self.emit_raw("  ret i8* getelementptr ([5 x i8], [5 x i8]* @.str.true_str, i64 0, i64 0)");
        self.emit_raw("false_case:");
        self.emit_raw("  ret i8* getelementptr ([6 x i8], [6 x i8]* @.str.false_str, i64 0, i64 0)");
        self.emit_raw("}");
        proof {
            assert(lines_view(final(self).output@) =~= lines_view(old(self).output@)
                + bool_to_string_lines());
        }
    }

    /// Emits the character-formatting routine.
    pub fn emit_char_to_string_runtime(&mut self)
        ensures
            *final(self) == (IRGenerator { output: final(self).output, ..*old(self) }),
            lines_view(final(self).output@) == lines_view(old(self).output@)
                + char_to_string_lines(),
    {
        self.emit_raw("define i8* @__eol_char_to_string(i8 %value) {");
        self.emit_raw("entry:");
        self.emit_raw("  %buf = call i8* @calloc(i64 1, i64 2)");
        self.emit_raw("  store i8 %value, i8* %buf");
        self.emit_raw("  %end_ptr = getelementptr i8, i8* %buf, i64 1");
        self.emit_raw("  store i8 0, i8* %end_ptr");
        self.emit_raw("  ret i8* %buf");
        self.emit_raw("}");
        proof {
            assert(lines_view(final(self).output@) =~= lines_view(old(self).output@)
                + char_to_string_lines());
        }
    }

    /// Emits the null-safe string-length routine.
    pub fn emit_string_length_runtime(&mut self)
        ensures
            *final(self) == (IRGenerator { output: final(self).output, ..*old(self) }),
            lines_view(final(self).output@) == lines_view(old(self).output@)
                + string_length_lines(),
    {
        self.emit_raw("define i32 @__cay_string_length(i8* %str) {");
        self.emit_raw("entry:");
        self.emit_raw("  %is_null = icmp eq i8* %str, null");
        self.emit_raw("  br i1 %is_null, label %null_case, label %normal_case");
        self.emit_raw("null_case:");
        self.emit_raw("  ret i32 0");
        self.emit_raw("normal_case:");
        self.emit_raw("  %len = call i64 @strlen(i8* %str)");
        self.emit_raw("  %len_i32 = trunc i64 %len to i32");
        self.emit_raw("  ret i32 %len_i32");
        self.emit_raw("}");
        proof {
            assert(lines_view(final(self).output@) =~= lines_view(old(self).output@)
                + string_length_lines());
        }
    }

    /// Emits the null-safe substring routine.
    pub fn emit_string_substring_runtime(&mut self)
        ensures
            *final(self) == (IRGenerator { output: final(self).output, ..*old(self) }),
            lines_view(final(self).output@) == lines_view(old(self).output@)
                + string_substring_lines(),
    {
        self.emit_raw("define i8* @__eol_string_substring(i8* %str, i32 %begin, i32 %end) {");
        self.emit_raw("entry:");
        self.emit_raw("  %is_null = icmp eq i8* %str, null");
        self.emit_raw("  br i1 %is_null, label %null_case, label %check_bounds");
        self.emit_raw("null_case:");
        self.emit_raw("  ret i8* getelementptr ([1 x i8], [1 x i8]* @.eol_empty_str, i64 0, i64 0)");
        self.emit_raw("check_bounds:");
        self.emit_raw("  %total_len = call i64 @strlen(i8* %str)");
        self.emit_raw("  %total_len_i32 = trunc i64 %total_len to i32");
        self.emit_raw("  %begin_neg = icmp slt i32 %begin, 0");
        self.emit_raw("  %begin_final = select i1 %begin_neg, i32 0, i32 %begin");
        self.emit_raw("  %end_too_large = icmp sgt i32 %end, %total_len_i32");
        self.emit_raw("  %end_final = select i1 %end_too_large, i32 %total_len_i32, i32 %end");
        self.emit_raw("  %begin_gt_end = icmp sgt i32 %begin_final, %end_final");
        self.emit_raw("  %begin_clamped = select i1 %begin_gt_end, i32 %end_final, i32 %begin_final");
        self.emit_raw("  %sub_len = sub i32 %end_final, %begin_clamped");
        self.emit_raw("  %sub_len_i64 = sext i32 %sub_len to i64");
        self.emit_raw("  %buf_size = add i64 %sub_len_i64, 1");
        self.emit_raw("  %result = call i8* @calloc(i64 1, i64 %buf_size)");
        self.emit_raw("  %begin_i64 = sext i32 %begin_clamped to i64");
        self.emit_raw("  %src_ptr = getelementptr i8, i8* %str, i64 %begin_i64");
        self.emit_raw(
            "  call void @llvm.memcpy.p0i8.p0i8.i64(i8* %result, i8* %src_ptr, i64 %sub_len_i64, i1 false)",
        );
        self.emit_raw("  %end_ptr = getelementptr i8, i8* %result, i64 %sub_len_i64");
        self.emit_raw("  store i8 0, i8* %end_ptr");
        self.emit_raw("  ret i8* %result");
        self.emit_raw("}");
        proof {
            assert(lines_view(final(self).output@) =~= lines_view(old(self).output@)
                + string_substring_lines());
        }
    }

    /// Emits the null-safe substring-search routine.
    pub fn emit_string_indexof_runtime(&mut self)
        ensures
            *final(self) == (IRGenerator { output: final(self).output, ..*old(self) }),
            lines_view(final(self).output@) == lines_view(old(self).output@)
                + string_indexof_lines(),
    {
        self.emit_raw("define i32 @__eol_string_indexof(i8* %str, i8* %substr) {");
        self.emit_raw("entry:");
        self.emit_raw("  %str_null = icmp eq i8* %str, null");
        self.emit_raw("  %substr_null = icmp eq i8* %substr, null");
        self.emit_raw("  %either_null = or i1 %str_null, %substr_null");
        self.emit_raw("  br i1 %either_null, label %not_found, label %search");
        self.emit_raw("not_found:");
        self.emit_raw("  ret i32 -1");
        self.emit_raw("search:");
        self.emit_raw("  %str_len = call i64 @strlen(i8* %str)");
        self.emit_raw("  %substr_len = call i64 @strlen(i8* %substr)");
        self.emit_raw("  %substr_empty = icmp eq i64 %substr_len, 0");
        self.emit_raw("  br i1 %substr_empty, label %found_at_0, label %loop_setup");
        self.emit_raw("found_at_0:");
        self.emit_raw("  ret i32 0");
        self.emit_raw("loop_setup:");
        self.emit_raw("  %substr_too_long = icmp sgt i64 %substr_len, %str_len");
        self.emit_raw("  br i1 %substr_too_long, label %not_found, label %loop_start");
        self.emit_raw("loop_start:");
        self.emit_raw("  %max_pos = sub i64 %str_len, %substr_len");
        self.emit_raw("  br label %loop_check");
        self.emit_raw("loop_check:");
        self.emit_raw("  %i = phi i64 [0, %loop_start], [%i_next, %loop_continue]");
        self.emit_raw("  %i_le_max = icmp sle i64 %i, %max_pos");
        self.emit_raw("  br i1 %i_le_max, label %loop_body, label %not_found");
        self.emit_raw("loop_body:");
        self.emit_raw("  %curr_ptr = getelementptr i8, i8* %str, i64 %i");
        self.emit_raw("  %cmp_result = call i32 @strncmp(i8* %curr_ptr, i8* %substr, i64 %substr_len)");
        self.emit_raw("  %found = icmp eq i32 %cmp_result, 0");
        self.emit_raw("  br i1 %found, label %found_match, label %loop_continue");
        self.emit_raw("found_match:");
        self.emit_raw("  %result_i32 = trunc i64 %i to i32");
        self.emit_raw("  ret i32 %result_i32");
        self.emit_raw("loop_continue:");
        self.emit_raw("  %i_next = add i64 %i, 1");
        self.emit_raw("  br label %loop_check");
        self.emit_raw("}");
        self.emit_raw("declare i32 @strncmp(i8*, i8*, i64)");
        proof {
            assert(lines_view(final(self).output@) =~= lines_view(old(self).output@)
                + string_indexof_lines());
        }
    }

    /// Emits the null-safe character-access routine.
    pub fn emit_string_charat_runtime(&mut self)
        ensures
            *final(self) == (IRGenerator { output: final(self).output, ..*old(self) }),
            lines_view(final(self).output@) == lines_view(old(self).output@)
                + string_charat_lines(),
    {
        self.emit_raw("define i8 @__eol_string_charat(i8* %str, i32 %index) {");
        self.emit_raw("entry:");
        self.emit_raw("  %is_null = icmp eq i8* %str, null");
        self.emit_raw("  br i1 %is_null, label %out_of_bounds, label %check_bounds");
        self.emit_raw("check_bounds:");
        self.emit_raw("  %len = call i64 @strlen(i8* %str)");
        self.emit_raw("  %len_i32 = trunc i64 %len to i32");
        self.emit_raw("  %index_neg = icmp slt i32 %index, 0");
        self.emit_raw("  %index_too_large = icmp sge i32 %index, %len_i32");
        self.emit_raw("  %out_of_range = or i1 %index_neg, %index_too_large");
        self.emit_raw("  br i1 %out_of_range, label %out_of_bounds, label %get_char");
        self.emit_raw("out_of_bounds:");
        self.emit_raw("  ret i8 0");
        self.emit_raw("get_char:");
        self.emit_raw("  %idx_i64 = sext i32 %index to i64");
        self.emit_raw("  %char_ptr = getelementptr i8, i8* %str, i64 %idx_i64");
        self.emit_raw("  %char_val = load i8, i8* %char_ptr");
        self.emit_raw("  ret i8 %char_val");
        self.emit_raw("}");
        proof {
            assert(lines_view(final(self).output@) =~= lines_view(old(self).output@)
                + string_charat_lines());
        }
    }

    /// Emits the legacy module header: the shared declarations, string
    /// concatenation, and float formatting.
    pub fn emit_header(&mut self)
        ensures
            *final(self) == (IRGenerator { output: final(self).output, ..*old(self) }),
            lines_view(final(self).output@) == lines_view(old(self).output@) + header_lines(),
    {
        self.emit_runtime_decls();
        self.emit_string_concat_runtime();
        self.emit_float_to_string_runtime();
        proof {
            assert(lines_view(final(self).output@) =~= lines_view(old(self).output@)
                + header_lines());
        }
    }
}

/// Emits the full module header: every declaration and every runtime
/// routine.
pub fn emit(gen: &mut IRGenerator)
    ensures
        *final(gen) == (IRGenerator { output: final(gen).output, ..*old(gen) }),
        lines_view(final(gen).output@) == lines_view(old(gen).output@) + full_header_lines(),
{
    gen.emit_runtime_decls();
    gen.emit_extra_decls();
    gen.emit_string_concat_runtime();
    gen.emit_float_to_string_runtime();
    gen.emit_int_to_string_runtime();
    gen.emit_bool_to_string_runtime();
    gen.emit_char_to_string_runtime();
    gen.emit_string_length_runtime();
    gen.emit_string_substring_runtime();
    gen.emit_string_indexof_runtime();
    gen.emit_string_charat_runtime();
    proof {
        assert(lines_view(final(gen).output@) =~= lines_view(old(gen).output@)
            + full_header_lines());
    }
}

} // verus!
