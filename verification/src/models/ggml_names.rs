//! ggml's names for the file types that a GGUF header's `general.file_type` codes.
use vstd::prelude::*;
use crate::models::gguf::quantization_spec;
use crate::text::{decimal_chars, lemma_decimal_chars_value};

verus! {

/// The codes that ggml names: 0 to 3, 6 to 8, and 10 to 36.
pub open spec fn ggml_named_code(code: u32) -> bool {
    code <= 3 || (6 <= code <= 8) || (10 <= code <= 36)
}

/// ggml's table of file types: each named code with its quantization name.
pub proof fn law_quantization_follows_the_ggml_table()
    ensures
        quantization_spec(0) == "F32"@,
        quantization_spec(1) == "F16"@,
        quantization_spec(2) == "Q4_0"@,
        quantization_spec(3) == "Q4_1"@,
        quantization_spec(6) == "Q5_0"@,
        quantization_spec(7) == "Q5_1"@,
        quantization_spec(8) == "Q8_0"@,
        quantization_spec(10) == "Q2_K"@,
        quantization_spec(11) == "Q3_K_S"@,
        quantization_spec(12) == "Q3_K_M"@,
        quantization_spec(13) == "Q3_K_L"@,
        quantization_spec(14) == "Q4_K_S"@,
        quantization_spec(15) == "Q4_K_M"@,
        quantization_spec(16) == "Q5_K_S"@,
        quantization_spec(17) == "Q5_K_M"@,
        quantization_spec(18) == "Q6_K"@,
        quantization_spec(19) == "IQ2_XXS"@,
        quantization_spec(20) == "IQ2_XS"@,
        quantization_spec(21) == "IQ3_XXS"@,
        quantization_spec(22) == "IQ1_S"@,
        quantization_spec(23) == "IQ4_NL"@,
        quantization_spec(24) == "IQ3_S"@,
        quantization_spec(25) == "IQ2_S"@,
        quantization_spec(26) == "IQ4_XS"@,
        quantization_spec(27) == "I8"@,
        quantization_spec(28) == "I16"@,
        quantization_spec(29) == "I32"@,
        quantization_spec(30) == "I64"@,
        quantization_spec(31) == "F64"@,
        quantization_spec(32) == "IQ1_M"@,
        quantization_spec(33) == "BF16"@,
        quantization_spec(34) == "TQ1_0"@,
        quantization_spec(35) == "TQ2_0"@,
        quantization_spec(36) == "MXFP4"@,
{
}

/// A code that ggml does not name is shown as `GGML type` and its decimal number.
pub proof fn law_unnamed_codes_show_their_number(code: u32)
    requires
        !ggml_named_code(code),
    ensures
        quantization_spec(code) == "GGML type "@ + decimal_chars(code as nat),
{
}

/// The code that ggml names this way, if any.
pub open spec fn ggml_code_of(name: Seq<char>) -> Option<u32> {
    if name == "F32"@ {
        Some(0u32)
    } else if name == "F16"@ {
        Some(1u32)
    } else if name == "Q4_0"@ {
        Some(2u32)
    } else if name == "Q4_1"@ {
        Some(3u32)
    } else if name == "Q5_0"@ {
        Some(6u32)
    } else if name == "Q5_1"@ {
        Some(7u32)
    } else if name == "Q8_0"@ {
        Some(8u32)
    } else if name == "Q2_K"@ {
        Some(10u32)
    } else if name == "Q3_K_S"@ {
        Some(11u32)
    } else if name == "Q3_K_M"@ {
        Some(12u32)
    } else if name == "Q3_K_L"@ {
        Some(13u32)
    } else if name == "Q4_K_S"@ {
        Some(14u32)
    } else if name == "Q4_K_M"@ {
        Some(15u32)
    } else if name == "Q5_K_S"@ {
        Some(16u32)
    } else if name == "Q5_K_M"@ {
        Some(17u32)
    } else if name == "Q6_K"@ {
        Some(18u32)
    } else if name == "IQ2_XXS"@ {
        Some(19u32)
    } else if name == "IQ2_XS"@ {
        Some(20u32)
    } else if name == "IQ3_XXS"@ {
        Some(21u32)
    } else if name == "IQ1_S"@ {
        Some(22u32)
    } else if name == "IQ4_NL"@ {
        Some(23u32)
    } else if name == "IQ3_S"@ {
        Some(24u32)
    } else if name == "IQ2_S"@ {
        Some(25u32)
    } else if name == "IQ4_XS"@ {
        Some(26u32)
    } else if name == "I8"@ {
        Some(27u32)
    } else if name == "I16"@ {
        Some(28u32)
    } else if name == "I32"@ {
        Some(29u32)
    } else if name == "I64"@ {
        Some(30u32)
    } else if name == "F64"@ {
        Some(31u32)
    } else if name == "IQ1_M"@ {
        Some(32u32)
    } else if name == "BF16"@ {
        Some(33u32)
    } else if name == "TQ1_0"@ {
        Some(34u32)
    } else if name == "TQ2_0"@ {
        Some(35u32)
    } else if name == "MXFP4"@ {
        Some(36u32)
    } else {
        None
    }
}

/// Each named code's name leads back to that code.
proof fn lemma_named_code_round_trip(a: u32)
    requires
        ggml_named_code(a),
    ensures
        ggml_code_of(quantization_spec(a)) == Some(a),
{
    if a == 0 {
        reveal_strlit("F32");
        assert(ggml_code_of(quantization_spec(a)) == Some(a));
    }
    if a == 1 {
        reveal_strlit("F16");
        reveal_strlit("F32");
        assert("F16"@[1] != "F32"@[1]);
        assert(ggml_code_of(quantization_spec(a)) == Some(a));
    }
    if a == 2 {
        reveal_strlit("Q4_0");
        reveal_strlit("F32");
        assert("Q4_0"@.len() != "F32"@.len());
        reveal_strlit("F16");
        assert("Q4_0"@.len() != "F16"@.len());
        assert(ggml_code_of(quantization_spec(a)) == Some(a));
    }
    if a == 3 {
        reveal_strlit("Q4_1");
        reveal_strlit("F32");
        assert("Q4_1"@.len() != "F32"@.len());
        reveal_strlit("F16");
        assert("Q4_1"@.len() != "F16"@.len());
        reveal_strlit("Q4_0");
        assert("Q4_1"@[3] != "Q4_0"@[3]);
        assert(ggml_code_of(quantization_spec(a)) == Some(a));
    }
    if a == 6 {
        reveal_strlit("Q5_0");
        reveal_strlit("F32");
        assert("Q5_0"@.len() != "F32"@.len());
        reveal_strlit("F16");
        assert("Q5_0"@.len() != "F16"@.len());
        reveal_strlit("Q4_0");
        assert("Q5_0"@[1] != "Q4_0"@[1]);
        reveal_strlit("Q4_1");
        assert("Q5_0"@[1] != "Q4_1"@[1]);
        assert(ggml_code_of(quantization_spec(a)) == Some(a));
    }
    if a == 7 {
        reveal_strlit("Q5_1");
        reveal_strlit("F32");
        assert("Q5_1"@.len() != "F32"@.len());
        reveal_strlit("F16");
        assert("Q5_1"@.len() != "F16"@.len());
        reveal_strlit("Q4_0");
        assert("Q5_1"@[1] != "Q4_0"@[1]);
        reveal_strlit("Q4_1");
        assert("Q5_1"@[1] != "Q4_1"@[1]);
        reveal_strlit("Q5_0");
        assert("Q5_1"@[3] != "Q5_0"@[3]);
        assert(ggml_code_of(quantization_spec(a)) == Some(a));
    }
    if a == 8 {
        reveal_strlit("Q8_0");
        reveal_strlit("F32");
        assert("Q8_0"@.len() != "F32"@.len());
        reveal_strlit("F16");
        assert("Q8_0"@.len() != "F16"@.len());
        reveal_strlit("Q4_0");
        assert("Q8_0"@[1] != "Q4_0"@[1]);
        reveal_strlit("Q4_1");
        assert("Q8_0"@[1] != "Q4_1"@[1]);
        reveal_strlit("Q5_0");
        assert("Q8_0"@[1] != "Q5_0"@[1]);
        reveal_strlit("Q5_1");
        assert("Q8_0"@[1] != "Q5_1"@[1]);
        assert(ggml_code_of(quantization_spec(a)) == Some(a));
    }
    if a == 10 {
        reveal_strlit("Q2_K");
        reveal_strlit("F32");
        assert("Q2_K"@.len() != "F32"@.len());
        reveal_strlit("F16");
        assert("Q2_K"@.len() != "F16"@.len());
        reveal_strlit("Q4_0");
        assert("Q2_K"@[1] != "Q4_0"@[1]);
        reveal_strlit("Q4_1");
        assert("Q2_K"@[1] != "Q4_1"@[1]);
        reveal_strlit("Q5_0");
        assert("Q2_K"@[1] != "Q5_0"@[1]);
        reveal_strlit("Q5_1");
        assert("Q2_K"@[1] != "Q5_1"@[1]);
        reveal_strlit("Q8_0");
        assert("Q2_K"@[1] != "Q8_0"@[1]);
        assert(ggml_code_of(quantization_spec(a)) == Some(a));
    }
    if a == 11 {
        reveal_strlit("Q3_K_S");
        reveal_strlit("F32");
        assert("Q3_K_S"@.len() != "F32"@.len());
        reveal_strlit("F16");
        assert("Q3_K_S"@.len() != "F16"@.len());
        reveal_strlit("Q4_0");
        assert("Q3_K_S"@.len() != "Q4_0"@.len());
        reveal_strlit("Q4_1");
        assert("Q3_K_S"@.len() != "Q4_1"@.len());
        reveal_strlit("Q5_0");
        assert("Q3_K_S"@.len() != "Q5_0"@.len());
        reveal_strlit("Q5_1");
        assert("Q3_K_S"@.len() != "Q5_1"@.len());
        reveal_strlit("Q8_0");
        assert("Q3_K_S"@.len() != "Q8_0"@.len());
        reveal_strlit("Q2_K");
        assert("Q3_K_S"@.len() != "Q2_K"@.len());
        assert(ggml_code_of(quantization_spec(a)) == Some(a));
    }
    if a == 12 {
        reveal_strlit("Q3_K_M");
        reveal_strlit("F32");
        assert("Q3_K_M"@.len() != "F32"@.len());
        reveal_strlit("F16");
        assert("Q3_K_M"@.len() != "F16"@.len());
        reveal_strlit("Q4_0");
        assert("Q3_K_M"@.len() != "Q4_0"@.len());
        reveal_strlit("Q4_1");
        assert("Q3_K_M"@.len() != "Q4_1"@.len());
        reveal_strlit("Q5_0");
        assert("Q3_K_M"@.len() != "Q5_0"@.len());
        reveal_strlit("Q5_1");
        assert("Q3_K_M"@.len() != "Q5_1"@.len());
        reveal_strlit("Q8_0");
        assert("Q3_K_M"@.len() != "Q8_0"@.len());
        reveal_strlit("Q2_K");
        assert("Q3_K_M"@.len() != "Q2_K"@.len());
        reveal_strlit("Q3_K_S");
        assert("Q3_K_M"@[5] != "Q3_K_S"@[5]);
        assert(ggml_code_of(quantization_spec(a)) == Some(a));
    }
    if a == 13 {
        reveal_strlit("Q3_K_L");
        reveal_strlit("F32");
        assert("Q3_K_L"@.len() != "F32"@.len());
        reveal_strlit("F16");
        assert("Q3_K_L"@.len() != "F16"@.len());
        reveal_strlit("Q4_0");
        assert("Q3_K_L"@.len() != "Q4_0"@.len());
        reveal_strlit("Q4_1");
        assert("Q3_K_L"@.len() != "Q4_1"@.len());
        reveal_strlit("Q5_0");
        assert("Q3_K_L"@.len() != "Q5_0"@.len());
        reveal_strlit("Q5_1");
        assert("Q3_K_L"@.len() != "Q5_1"@.len());
        reveal_strlit("Q8_0");
        assert("Q3_K_L"@.len() != "Q8_0"@.len());
        reveal_strlit("Q2_K");
        assert("Q3_K_L"@.len() != "Q2_K"@.len());
        reveal_strlit("Q3_K_S");
        assert("Q3_K_L"@[5] != "Q3_K_S"@[5]);
        reveal_strlit("Q3_K_M");
        assert("Q3_K_L"@[5] != "Q3_K_M"@[5]);
        assert(ggml_code_of(quantization_spec(a)) == Some(a));
    }
    if a == 14 {
        reveal_strlit("Q4_K_S");
        reveal_strlit("F32");
        assert("Q4_K_S"@.len() != "F32"@.len());
        reveal_strlit("F16");
        assert("Q4_K_S"@.len() != "F16"@.len());
        reveal_strlit("Q4_0");
        assert("Q4_K_S"@.len() != "Q4_0"@.len());
        reveal_strlit("Q4_1");
        assert("Q4_K_S"@.len() != "Q4_1"@.len());
        reveal_strlit("Q5_0");
        assert("Q4_K_S"@.len() != "Q5_0"@.len());
        reveal_strlit("Q5_1");
        assert("Q4_K_S"@.len() != "Q5_1"@.len());
        reveal_strlit("Q8_0");
        assert("Q4_K_S"@.len() != "Q8_0"@.len());
        reveal_strlit("Q2_K");
        assert("Q4_K_S"@.len() != "Q2_K"@.len());
        reveal_strlit("Q3_K_S");
        assert("Q4_K_S"@[1] != "Q3_K_S"@[1]);
        reveal_strlit("Q3_K_M");
        assert("Q4_K_S"@[1] != "Q3_K_M"@[1]);
        reveal_strlit("Q3_K_L");
        assert("Q4_K_S"@[1] != "Q3_K_L"@[1]);
        assert(ggml_code_of(quantization_spec(a)) == Some(a));
    }
    if a == 15 {
        reveal_strlit("Q4_K_M");
        reveal_strlit("F32");
        assert("Q4_K_M"@.len() != "F32"@.len());
        reveal_strlit("F16");
        assert("Q4_K_M"@.len() != "F16"@.len());
        reveal_strlit("Q4_0");
        assert("Q4_K_M"@.len() != "Q4_0"@.len());
        reveal_strlit("Q4_1");
        assert("Q4_K_M"@.len() != "Q4_1"@.len());
        reveal_strlit("Q5_0");
        assert("Q4_K_M"@.len() != "Q5_0"@.len());
        reveal_strlit("Q5_1");
        assert("Q4_K_M"@.len() != "Q5_1"@.len());
        reveal_strlit("Q8_0");
        assert("Q4_K_M"@.len() != "Q8_0"@.len());
        reveal_strlit("Q2_K");
        assert("Q4_K_M"@.len() != "Q2_K"@.len());
        reveal_strlit("Q3_K_S");
        assert("Q4_K_M"@[1] != "Q3_K_S"@[1]);
        reveal_strlit("Q3_K_M");
        assert("Q4_K_M"@[1] != "Q3_K_M"@[1]);
        reveal_strlit("Q3_K_L");
        assert("Q4_K_M"@[1] != "Q3_K_L"@[1]);
        reveal_strlit("Q4_K_S");
        assert("Q4_K_M"@[5] != "Q4_K_S"@[5]);
        assert(ggml_code_of(quantization_spec(a)) == Some(a));
    }
    if a == 16 {
        reveal_strlit("Q5_K_S");
        reveal_strlit("F32");
        assert("Q5_K_S"@.len() != "F32"@.len());
        reveal_strlit("F16");
        assert("Q5_K_S"@.len() != "F16"@.len());
        reveal_strlit("Q4_0");
        assert("Q5_K_S"@.len() != "Q4_0"@.len());
        reveal_strlit("Q4_1");
        assert("Q5_K_S"@.len() != "Q4_1"@.len());
        reveal_strlit("Q5_0");
        assert("Q5_K_S"@.len() != "Q5_0"@.len());
        reveal_strlit("Q5_1");
        assert("Q5_K_S"@.len() != "Q5_1"@.len());
        reveal_strlit("Q8_0");
        assert("Q5_K_S"@.len() != "Q8_0"@.len());
        reveal_strlit("Q2_K");
        assert("Q5_K_S"@.len() != "Q2_K"@.len());
        reveal_strlit("Q3_K_S");
        assert("Q5_K_S"@[1] != "Q3_K_S"@[1]);
        reveal_strlit("Q3_K_M");
        assert("Q5_K_S"@[1] != "Q3_K_M"@[1]);
        reveal_strlit("Q3_K_L");
        assert("Q5_K_S"@[1] != "Q3_K_L"@[1]);
        reveal_strlit("Q4_K_S");
        assert("Q5_K_S"@[1] != "Q4_K_S"@[1]);
        reveal_strlit("Q4_K_M");
        assert("Q5_K_S"@[1] != "Q4_K_M"@[1]);
        assert(ggml_code_of(quantization_spec(a)) == Some(a));
    }
    if a == 17 {
        reveal_strlit("Q5_K_M");
        reveal_strlit("F32");
        assert("Q5_K_M"@.len() != "F32"@.len());
        reveal_strlit("F16");
        assert("Q5_K_M"@.len() != "F16"@.len());
        reveal_strlit("Q4_0");
        assert("Q5_K_M"@.len() != "Q4_0"@.len());
        reveal_strlit("Q4_1");
        assert("Q5_K_M"@.len() != "Q4_1"@.len());
        reveal_strlit("Q5_0");
        assert("Q5_K_M"@.len() != "Q5_0"@.len());
        reveal_strlit("Q5_1");
        assert("Q5_K_M"@.len() != "Q5_1"@.len());
        reveal_strlit("Q8_0");
        assert("Q5_K_M"@.len() != "Q8_0"@.len());
        reveal_strlit("Q2_K");
        assert("Q5_K_M"@.len() != "Q2_K"@.len());
        reveal_strlit("Q3_K_S");
        assert("Q5_K_M"@[1] != "Q3_K_S"@[1]);
        reveal_strlit("Q3_K_M");
        assert("Q5_K_M"@[1] != "Q3_K_M"@[1]);
        reveal_strlit("Q3_K_L");
        assert("Q5_K_M"@[1] != "Q3_K_L"@[1]);
        reveal_strlit("Q4_K_S");
        assert("Q5_K_M"@[1] != "Q4_K_S"@[1]);
        reveal_strlit("Q4_K_M");
        assert("Q5_K_M"@[1] != "Q4_K_M"@[1]);
        reveal_strlit("Q5_K_S");
        assert("Q5_K_M"@[5] != "Q5_K_S"@[5]);
        assert(ggml_code_of(quantization_spec(a)) == Some(a));
    }
    if a == 18 {
        reveal_strlit("Q6_K");
        reveal_strlit("F32");
        assert("Q6_K"@.len() != "F32"@.len());
        reveal_strlit("F16");
        assert("Q6_K"@.len() != "F16"@.len());
        reveal_strlit("Q4_0");
        assert("Q6_K"@[1] != "Q4_0"@[1]);
        reveal_strlit("Q4_1");
        assert("Q6_K"@[1] != "Q4_1"@[1]);
        reveal_strlit("Q5_0");
        assert("Q6_K"@[1] != "Q5_0"@[1]);
        reveal_strlit("Q5_1");
        assert("Q6_K"@[1] != "Q5_1"@[1]);
        reveal_strlit("Q8_0");
        assert("Q6_K"@[1] != "Q8_0"@[1]);
        reveal_strlit("Q2_K");
        assert("Q6_K"@[1] != "Q2_K"@[1]);
        reveal_strlit("Q3_K_S");
        assert("Q6_K"@.len() != "Q3_K_S"@.len());
        reveal_strlit("Q3_K_M");
        assert("Q6_K"@.len() != "Q3_K_M"@.len());
        reveal_strlit("Q3_K_L");
        assert("Q6_K"@.len() != "Q3_K_L"@.len());
        reveal_strlit("Q4_K_S");
        assert("Q6_K"@.len() != "Q4_K_S"@.len());
        reveal_strlit("Q4_K_M");
        assert("Q6_K"@.len() != "Q4_K_M"@.len());
        reveal_strlit("Q5_K_S");
        assert("Q6_K"@.len() != "Q5_K_S"@.len());
        reveal_strlit("Q5_K_M");
        assert("Q6_K"@.len() != "Q5_K_M"@.len());
        assert(ggml_code_of(quantization_spec(a)) == Some(a));
    }
    if a == 19 {
        reveal_strlit("IQ2_XXS");
        reveal_strlit("F32");
        assert("IQ2_XXS"@.len() != "F32"@.len());
        reveal_strlit("F16");
        assert("IQ2_XXS"@.len() != "F16"@.len());
        reveal_strlit("Q4_0");
        assert("IQ2_XXS"@.len() != "Q4_0"@.len());
        reveal_strlit("Q4_1");
        assert("IQ2_XXS"@.len() != "Q4_1"@.len());
        reveal_strlit("Q5_0");
        assert("IQ2_XXS"@.len() != "Q5_0"@.len());
        reveal_strlit("Q5_1");
        assert("IQ2_XXS"@.len() != "Q5_1"@.len());
        reveal_strlit("Q8_0");
        assert("IQ2_XXS"@.len() != "Q8_0"@.len());
        reveal_strlit("Q2_K");
        assert("IQ2_XXS"@.len() != "Q2_K"@.len());
        reveal_strlit("Q3_K_S");
        assert("IQ2_XXS"@.len() != "Q3_K_S"@.len());
        reveal_strlit("Q3_K_M");
        assert("IQ2_XXS"@.len() != "Q3_K_M"@.len());
        reveal_strlit("Q3_K_L");
        assert("IQ2_XXS"@.len() != "Q3_K_L"@.len());
        reveal_strlit("Q4_K_S");
        assert("IQ2_XXS"@.len() != "Q4_K_S"@.len());
        reveal_strlit("Q4_K_M");
        assert("IQ2_XXS"@.len() != "Q4_K_M"@.len());
        reveal_strlit("Q5_K_S");
        assert("IQ2_XXS"@.len() != "Q5_K_S"@.len());
        reveal_strlit("Q5_K_M");
        assert("IQ2_XXS"@.len() != "Q5_K_M"@.len());
        reveal_strlit("Q6_K");
        assert("IQ2_XXS"@.len() != "Q6_K"@.len());
        assert(ggml_code_of(quantization_spec(a)) == Some(a));
    }
    if a == 20 {
        reveal_strlit("IQ2_XS");
        reveal_strlit("F32");
        assert("IQ2_XS"@.len() != "F32"@.len());
        reveal_strlit("F16");
        assert("IQ2_XS"@.len() != "F16"@.len());
        reveal_strlit("Q4_0");
        assert("IQ2_XS"@.len() != "Q4_0"@.len());
        reveal_strlit("Q4_1");
        assert("IQ2_XS"@.len() != "Q4_1"@.len());
        reveal_strlit("Q5_0");
        assert("IQ2_XS"@.len() != "Q5_0"@.len());
        reveal_strlit("Q5_1");
        assert("IQ2_XS"@.len() != "Q5_1"@.len());
        reveal_strlit("Q8_0");
        assert("IQ2_XS"@.len() != "Q8_0"@.len());
        reveal_strlit("Q2_K");
        assert("IQ2_XS"@.len() != "Q2_K"@.len());
        reveal_strlit("Q3_K_S");
        assert("IQ2_XS"@[0] != "Q3_K_S"@[0]);
        reveal_strlit("Q3_K_M");
        assert("IQ2_XS"@[0] != "Q3_K_M"@[0]);
        reveal_strlit("Q3_K_L");
        assert("IQ2_XS"@[0] != "Q3_K_L"@[0]);
        reveal_strlit("Q4_K_S");
        assert("IQ2_XS"@[0] != "Q4_K_S"@[0]);
        reveal_strlit("Q4_K_M");
        assert("IQ2_XS"@[0] != "Q4_K_M"@[0]);
        reveal_strlit("Q5_K_S");
        assert("IQ2_XS"@[0] != "Q5_K_S"@[0]);
        reveal_strlit("Q5_K_M");
        assert("IQ2_XS"@[0] != "Q5_K_M"@[0]);
        reveal_strlit("Q6_K");
        assert("IQ2_XS"@.len() != "Q6_K"@.len());
        reveal_strlit("IQ2_XXS");
        assert("IQ2_XS"@.len() != "IQ2_XXS"@.len());
        assert(ggml_code_of(quantization_spec(a)) == Some(a));
    }
    if a == 21 {
        reveal_strlit("IQ3_XXS");
        reveal_strlit("F32");
        assert("IQ3_XXS"@.len() != "F32"@.len());
        reveal_strlit("F16");
        assert("IQ3_XXS"@.len() != "F16"@.len());
        reveal_strlit("Q4_0");
        assert("IQ3_XXS"@.len() != "Q4_0"@.len());
        reveal_strlit("Q4_1");
        assert("IQ3_XXS"@.len() != "Q4_1"@.len());
        reveal_strlit("Q5_0");
        assert("IQ3_XXS"@.len() != "Q5_0"@.len());
        reveal_strlit("Q5_1");
        assert("IQ3_XXS"@.len() != "Q5_1"@.len());
        reveal_strlit("Q8_0");
        assert("IQ3_XXS"@.len() != "Q8_0"@.len());
        reveal_strlit("Q2_K");
        assert("IQ3_XXS"@.len() != "Q2_K"@.len());
        reveal_strlit("Q3_K_S");
        assert("IQ3_XXS"@.len() != "Q3_K_S"@.len());
        reveal_strlit("Q3_K_M");
        assert("IQ3_XXS"@.len() != "Q3_K_M"@.len());
        reveal_strlit("Q3_K_L");
        assert("IQ3_XXS"@.len() != "Q3_K_L"@.len());
        reveal_strlit("Q4_K_S");
        assert("IQ3_XXS"@.len() != "Q4_K_S"@.len());
        reveal_strlit("Q4_K_M");
        assert("IQ3_XXS"@.len() != "Q4_K_M"@.len());
        reveal_strlit("Q5_K_S");
        assert("IQ3_XXS"@.len() != "Q5_K_S"@.len());
        reveal_strlit("Q5_K_M");
        assert("IQ3_XXS"@.len() != "Q5_K_M"@.len());
        reveal_strlit("Q6_K");
        assert("IQ3_XXS"@.len() != "Q6_K"@.len());
        reveal_strlit("IQ2_XXS");
        assert("IQ3_XXS"@[2] != "IQ2_XXS"@[2]);
        reveal_strlit("IQ2_XS");
        assert("IQ3_XXS"@.len() != "IQ2_XS"@.len());
        assert(ggml_code_of(quantization_spec(a)) == Some(a));
    }
    if a == 22 {
        reveal_strlit("IQ1_S");
        reveal_strlit("F32");
        assert("IQ1_S"@.len() != "F32"@.len());
        reveal_strlit("F16");
        assert("IQ1_S"@.len() != "F16"@.len());
        reveal_strlit("Q4_0");
        assert("IQ1_S"@.len() != "Q4_0"@.len());
        reveal_strlit("Q4_1");
        assert("IQ1_S"@.len() != "Q4_1"@.len());
        reveal_strlit("Q5_0");
        assert("IQ1_S"@.len() != "Q5_0"@.len());
        reveal_strlit("Q5_1");
        assert("IQ1_S"@.len() != "Q5_1"@.len());
        reveal_strlit("Q8_0");
        assert("IQ1_S"@.len() != "Q8_0"@.len());
        reveal_strlit("Q2_K");
        assert("IQ1_S"@.len() != "Q2_K"@.len());
        reveal_strlit("Q3_K_S");
        assert("IQ1_S"@.len() != "Q3_K_S"@.len());
        reveal_strlit("Q3_K_M");
        assert("IQ1_S"@.len() != "Q3_K_M"@.len());
        reveal_strlit("Q3_K_L");
        assert("IQ1_S"@.len() != "Q3_K_L"@.len());
        reveal_strlit("Q4_K_S");
        assert("IQ1_S"@.len() != "Q4_K_S"@.len());
        reveal_strlit("Q4_K_M");
        assert("IQ1_S"@.len() != "Q4_K_M"@.len());
        reveal_strlit("Q5_K_S");
        assert("IQ1_S"@.len() != "Q5_K_S"@.len());
        reveal_strlit("Q5_K_M");
        assert("IQ1_S"@.len() != "Q5_K_M"@.len());
        reveal_strlit("Q6_K");
        assert("IQ1_S"@.len() != "Q6_K"@.len());
        reveal_strlit("IQ2_XXS");
        assert("IQ1_S"@.len() != "IQ2_XXS"@.len());
        reveal_strlit("IQ2_XS");
        assert("IQ1_S"@.len() != "IQ2_XS"@.len());
        reveal_strlit("IQ3_XXS");
        assert("IQ1_S"@.len() != "IQ3_XXS"@.len());
        assert(ggml_code_of(quantization_spec(a)) == Some(a));
    }
    if a == 23 {
        reveal_strlit("IQ4_NL");
        reveal_strlit("F32");
        assert("IQ4_NL"@.len() != "F32"@.len());
        reveal_strlit("F16");
        assert("IQ4_NL"@.len() != "F16"@.len());
        reveal_strlit("Q4_0");
        assert("IQ4_NL"@.len() != "Q4_0"@.len());
        reveal_strlit("Q4_1");
        assert("IQ4_NL"@.len() != "Q4_1"@.len());
        reveal_strlit("Q5_0");
        assert("IQ4_NL"@.len() != "Q5_0"@.len());
        reveal_strlit("Q5_1");
        assert("IQ4_NL"@.len() != "Q5_1"@.len());
        reveal_strlit("Q8_0");
        assert("IQ4_NL"@.len() != "Q8_0"@.len());
        reveal_strlit("Q2_K");
        assert("IQ4_NL"@.len() != "Q2_K"@.len());
        reveal_strlit("Q3_K_S");
        assert("IQ4_NL"@[0] != "Q3_K_S"@[0]);
        reveal_strlit("Q3_K_M");
        assert("IQ4_NL"@[0] != "Q3_K_M"@[0]);
        reveal_strlit("Q3_K_L");
        assert("IQ4_NL"@[0] != "Q3_K_L"@[0]);
        reveal_strlit("Q4_K_S");
        assert("IQ4_NL"@[0] != "Q4_K_S"@[0]);
        reveal_strlit("Q4_K_M");
        assert("IQ4_NL"@[0] != "Q4_K_M"@[0]);
        reveal_strlit("Q5_K_S");
        assert("IQ4_NL"@[0] != "Q5_K_S"@[0]);
        reveal_strlit("Q5_K_M");
        assert("IQ4_NL"@[0] != "Q5_K_M"@[0]);
        reveal_strlit("Q6_K");
        assert("IQ4_NL"@.len() != "Q6_K"@.len());
        reveal_strlit("IQ2_XXS");
        assert("IQ4_NL"@.len() != "IQ2_XXS"@.len());
        reveal_strlit("IQ2_XS");
        assert("IQ4_NL"@[2] != "IQ2_XS"@[2]);
        reveal_strlit("IQ3_XXS");
        assert("IQ4_NL"@.len() != "IQ3_XXS"@.len());
        reveal_strlit("IQ1_S");
        assert("IQ4_NL"@.len() != "IQ1_S"@.len());
        assert(ggml_code_of(quantization_spec(a)) == Some(a));
    }
    if a == 24 {
        reveal_strlit("IQ3_S");
        reveal_strlit("F32");
        assert("IQ3_S"@.len() != "F32"@.len());
        reveal_strlit("F16");
        assert("IQ3_S"@.len() != "F16"@.len());
        reveal_strlit("Q4_0");
        assert("IQ3_S"@.len() != "Q4_0"@.len());
        reveal_strlit("Q4_1");
        assert("IQ3_S"@.len() != "Q4_1"@.len());
        reveal_strlit("Q5_0");
        assert("IQ3_S"@.len() != "Q5_0"@.len());
        reveal_strlit("Q5_1");
        assert("IQ3_S"@.len() != "Q5_1"@.len());
        reveal_strlit("Q8_0");
        assert("IQ3_S"@.len() != "Q8_0"@.len());
        reveal_strlit("Q2_K");
        assert("IQ3_S"@.len() != "Q2_K"@.len());
        reveal_strlit("Q3_K_S");
        assert("IQ3_S"@.len() != "Q3_K_S"@.len());
        reveal_strlit("Q3_K_M");
        assert("IQ3_S"@.len() != "Q3_K_M"@.len());
        reveal_strlit("Q3_K_L");
        assert("IQ3_S"@.len() != "Q3_K_L"@.len());
        reveal_strlit("Q4_K_S");
        assert("IQ3_S"@.len() != "Q4_K_S"@.len());
        reveal_strlit("Q4_K_M");
        assert("IQ3_S"@.len() != "Q4_K_M"@.len());
        reveal_strlit("Q5_K_S");
        assert("IQ3_S"@.len() != "Q5_K_S"@.len());
        reveal_strlit("Q5_K_M");
        assert("IQ3_S"@.len() != "Q5_K_M"@.len());
        reveal_strlit("Q6_K");
        assert("IQ3_S"@.len() != "Q6_K"@.len());
        reveal_strlit("IQ2_XXS");
        assert("IQ3_S"@.len() != "IQ2_XXS"@.len());
        reveal_strlit("IQ2_XS");
        assert("IQ3_S"@.len() != "IQ2_XS"@.len());
        reveal_strlit("IQ3_XXS");
        assert("IQ3_S"@.len() != "IQ3_XXS"@.len());
        reveal_strlit("IQ1_S");
        assert("IQ3_S"@[2] != "IQ1_S"@[2]);
        reveal_strlit("IQ4_NL");
        assert("IQ3_S"@.len() != "IQ4_NL"@.len());
        assert(ggml_code_of(quantization_spec(a)) == Some(a));
    }
    if a == 25 {
        reveal_strlit("IQ2_S");
        reveal_strlit("F32");
        assert("IQ2_S"@.len() != "F32"@.len());
        reveal_strlit("F16");
        assert("IQ2_S"@.len() != "F16"@.len());
        reveal_strlit("Q4_0");
        assert("IQ2_S"@.len() != "Q4_0"@.len());
        reveal_strlit("Q4_1");
        assert("IQ2_S"@.len() != "Q4_1"@.len());
        reveal_strlit("Q5_0");
        assert("IQ2_S"@.len() != "Q5_0"@.len());
        reveal_strlit("Q5_1");
        assert("IQ2_S"@.len() != "Q5_1"@.len());
        reveal_strlit("Q8_0");
        assert("IQ2_S"@.len() != "Q8_0"@.len());
        reveal_strlit("Q2_K");
        assert("IQ2_S"@.len() != "Q2_K"@.len());
        reveal_strlit("Q3_K_S");
        assert("IQ2_S"@.len() != "Q3_K_S"@.len());
        reveal_strlit("Q3_K_M");
        assert("IQ2_S"@.len() != "Q3_K_M"@.len());
        reveal_strlit("Q3_K_L");
        assert("IQ2_S"@.len() != "Q3_K_L"@.len());
        reveal_strlit("Q4_K_S");
        assert("IQ2_S"@.len() != "Q4_K_S"@.len());
        reveal_strlit("Q4_K_M");
        assert("IQ2_S"@.len() != "Q4_K_M"@.len());
        reveal_strlit("Q5_K_S");
        assert("IQ2_S"@.len() != "Q5_K_S"@.len());
        reveal_strlit("Q5_K_M");
        assert("IQ2_S"@.len() != "Q5_K_M"@.len());
        reveal_strlit("Q6_K");
        assert("IQ2_S"@.len() != "Q6_K"@.len());
        reveal_strlit("IQ2_XXS");
        assert("IQ2_S"@.len() != "IQ2_XXS"@.len());
        reveal_strlit("IQ2_XS");
        assert("IQ2_S"@.len() != "IQ2_XS"@.len());
        reveal_strlit("IQ3_XXS");
        assert("IQ2_S"@.len() != "IQ3_XXS"@.len());
        reveal_strlit("IQ1_S");
        assert("IQ2_S"@[2] != "IQ1_S"@[2]);
        reveal_strlit("IQ4_NL");
        assert("IQ2_S"@.len() != "IQ4_NL"@.len());
        reveal_strlit("IQ3_S");
        assert("IQ2_S"@[2] != "IQ3_S"@[2]);
        assert(ggml_code_of(quantization_spec(a)) == Some(a));
    }
    if a == 26 {
        reveal_strlit("IQ4_XS");
        reveal_strlit("F32");
        assert("IQ4_XS"@.len() != "F32"@.len());
        reveal_strlit("F16");
        assert("IQ4_XS"@.len() != "F16"@.len());
        reveal_strlit("Q4_0");
        assert("IQ4_XS"@.len() != "Q4_0"@.len());
        reveal_strlit("Q4_1");
        assert("IQ4_XS"@.len() != "Q4_1"@.len());
        reveal_strlit("Q5_0");
        assert("IQ4_XS"@.len() != "Q5_0"@.len());
        reveal_strlit("Q5_1");
        assert("IQ4_XS"@.len() != "Q5_1"@.len());
        reveal_strlit("Q8_0");
        assert("IQ4_XS"@.len() != "Q8_0"@.len());
        reveal_strlit("Q2_K");
        assert("IQ4_XS"@.len() != "Q2_K"@.len());
        reveal_strlit("Q3_K_S");
        assert("IQ4_XS"@[0] != "Q3_K_S"@[0]);
        reveal_strlit("Q3_K_M");
        assert("IQ4_XS"@[0] != "Q3_K_M"@[0]);
        reveal_strlit("Q3_K_L");
        assert("IQ4_XS"@[0] != "Q3_K_L"@[0]);
        reveal_strlit("Q4_K_S");
        assert("IQ4_XS"@[0] != "Q4_K_S"@[0]);
        reveal_strlit("Q4_K_M");
        assert("IQ4_XS"@[0] != "Q4_K_M"@[0]);
        reveal_strlit("Q5_K_S");
        assert("IQ4_XS"@[0] != "Q5_K_S"@[0]);
        reveal_strlit("Q5_K_M");
        assert("IQ4_XS"@[0] != "Q5_K_M"@[0]);
        reveal_strlit("Q6_K");
        assert("IQ4_XS"@.len() != "Q6_K"@.len());
        reveal_strlit("IQ2_XXS");
        assert("IQ4_XS"@.len() != "IQ2_XXS"@.len());
        reveal_strlit("IQ2_XS");
        assert("IQ4_XS"@[2] != "IQ2_XS"@[2]);
        reveal_strlit("IQ3_XXS");
        assert("IQ4_XS"@.len() != "IQ3_XXS"@.len());
        reveal_strlit("IQ1_S");
        assert("IQ4_XS"@.len() != "IQ1_S"@.len());
        reveal_strlit("IQ4_NL");
        assert("IQ4_XS"@[4] != "IQ4_NL"@[4]);
        reveal_strlit("IQ3_S");
        assert("IQ4_XS"@.len() != "IQ3_S"@.len());
        reveal_strlit("IQ2_S");
        assert("IQ4_XS"@.len() != "IQ2_S"@.len());
        assert(ggml_code_of(quantization_spec(a)) == Some(a));
    }
    if a == 27 {
        reveal_strlit("I8");
        reveal_strlit("F32");
        assert("I8"@.len() != "F32"@.len());
        reveal_strlit("F16");
        assert("I8"@.len() != "F16"@.len());
        reveal_strlit("Q4_0");
        assert("I8"@.len() != "Q4_0"@.len());
        reveal_strlit("Q4_1");
        assert("I8"@.len() != "Q4_1"@.len());
        reveal_strlit("Q5_0");
        assert("I8"@.len() != "Q5_0"@.len());
        reveal_strlit("Q5_1");
        assert("I8"@.len() != "Q5_1"@.len());
        reveal_strlit("Q8_0");
        assert("I8"@.len() != "Q8_0"@.len());
        reveal_strlit("Q2_K");
        assert("I8"@.len() != "Q2_K"@.len());
        reveal_strlit("Q3_K_S");
        assert("I8"@.len() != "Q3_K_S"@.len());
        reveal_strlit("Q3_K_M");
        assert("I8"@.len() != "Q3_K_M"@.len());
        reveal_strlit("Q3_K_L");
        assert("I8"@.len() != "Q3_K_L"@.len());
        reveal_strlit("Q4_K_S");
        assert("I8"@.len() != "Q4_K_S"@.len());
        reveal_strlit("Q4_K_M");
        assert("I8"@.len() != "Q4_K_M"@.len());
        reveal_strlit("Q5_K_S");
        assert("I8"@.len() != "Q5_K_S"@.len());
        reveal_strlit("Q5_K_M");
        assert("I8"@.len() != "Q5_K_M"@.len());
        reveal_strlit("Q6_K");
        assert("I8"@.len() != "Q6_K"@.len());
        reveal_strlit("IQ2_XXS");
        assert("I8"@.len() != "IQ2_XXS"@.len());
        reveal_strlit("IQ2_XS");
        assert("I8"@.len() != "IQ2_XS"@.len());
        reveal_strlit("IQ3_XXS");
        assert("I8"@.len() != "IQ3_XXS"@.len());
        reveal_strlit("IQ1_S");
        assert("I8"@.len() != "IQ1_S"@.len());
        reveal_strlit("IQ4_NL");
        assert("I8"@.len() != "IQ4_NL"@.len());
        reveal_strlit("IQ3_S");
        assert("I8"@.len() != "IQ3_S"@.len());
        reveal_strlit("IQ2_S");
        assert("I8"@.len() != "IQ2_S"@.len());
        reveal_strlit("IQ4_XS");
        assert("I8"@.len() != "IQ4_XS"@.len());
        assert(ggml_code_of(quantization_spec(a)) == Some(a));
    }
    if a == 28 {
        reveal_strlit("I16");
        reveal_strlit("F32");
        assert("I16"@[0] != "F32"@[0]);
        reveal_strlit("F16");
        assert("I16"@[0] != "F16"@[0]);
        reveal_strlit("Q4_0");
        assert("I16"@.len() != "Q4_0"@.len());
        reveal_strlit("Q4_1");
        assert("I16"@.len() != "Q4_1"@.len());
        reveal_strlit("Q5_0");
        assert("I16"@.len() != "Q5_0"@.len());
        reveal_strlit("Q5_1");
        assert("I16"@.len() != "Q5_1"@.len());
        reveal_strlit("Q8_0");
        assert("I16"@.len() != "Q8_0"@.len());
        reveal_strlit("Q2_K");
        assert("I16"@.len() != "Q2_K"@.len());
        reveal_strlit("Q3_K_S");
        assert("I16"@.len() != "Q3_K_S"@.len());
        reveal_strlit("Q3_K_M");
        assert("I16"@.len() != "Q3_K_M"@.len());
        reveal_strlit("Q3_K_L");
        assert("I16"@.len() != "Q3_K_L"@.len());
        reveal_strlit("Q4_K_S");
        assert("I16"@.len() != "Q4_K_S"@.len());
        reveal_strlit("Q4_K_M");
        assert("I16"@.len() != "Q4_K_M"@.len());
        reveal_strlit("Q5_K_S");
        assert("I16"@.len() != "Q5_K_S"@.len());
        reveal_strlit("Q5_K_M");
        assert("I16"@.len() != "Q5_K_M"@.len());
        reveal_strlit("Q6_K");
        assert("I16"@.len() != "Q6_K"@.len());
        reveal_strlit("IQ2_XXS");
        assert("I16"@.len() != "IQ2_XXS"@.len());
        reveal_strlit("IQ2_XS");
        assert("I16"@.len() != "IQ2_XS"@.len());
        reveal_strlit("IQ3_XXS");
        assert("I16"@.len() != "IQ3_XXS"@.len());
        reveal_strlit("IQ1_S");
        assert("I16"@.len() != "IQ1_S"@.len());
        reveal_strlit("IQ4_NL");
        assert("I16"@.len() != "IQ4_NL"@.len());
        reveal_strlit("IQ3_S");
        assert("I16"@.len() != "IQ3_S"@.len());
        reveal_strlit("IQ2_S");
        assert("I16"@.len() != "IQ2_S"@.len());
        reveal_strlit("IQ4_XS");
        assert("I16"@.len() != "IQ4_XS"@.len());
        reveal_strlit("I8");
        assert("I16"@.len() != "I8"@.len());
        assert(ggml_code_of(quantization_spec(a)) == Some(a));
    }
    if a == 29 {
        reveal_strlit("I32");
        reveal_strlit("F32");
        assert("I32"@[0] != "F32"@[0]);
        reveal_strlit("F16");
        assert("I32"@[0] != "F16"@[0]);
        reveal_strlit("Q4_0");
        assert("I32"@.len() != "Q4_0"@.len());
        reveal_strlit("Q4_1");
        assert("I32"@.len() != "Q4_1"@.len());
        reveal_strlit("Q5_0");
        assert("I32"@.len() != "Q5_0"@.len());
        reveal_strlit("Q5_1");
        assert("I32"@.len() != "Q5_1"@.len());
        reveal_strlit("Q8_0");
        assert("I32"@.len() != "Q8_0"@.len());
        reveal_strlit("Q2_K");
        assert("I32"@.len() != "Q2_K"@.len());
        reveal_strlit("Q3_K_S");
        assert("I32"@.len() != "Q3_K_S"@.len());
        reveal_strlit("Q3_K_M");
        assert("I32"@.len() != "Q3_K_M"@.len());
        reveal_strlit("Q3_K_L");
        assert("I32"@.len() != "Q3_K_L"@.len());
        reveal_strlit("Q4_K_S");
        assert("I32"@.len() != "Q4_K_S"@.len());
        reveal_strlit("Q4_K_M");
        assert("I32"@.len() != "Q4_K_M"@.len());
        reveal_strlit("Q5_K_S");
        assert("I32"@.len() != "Q5_K_S"@.len());
        reveal_strlit("Q5_K_M");
        assert("I32"@.len() != "Q5_K_M"@.len());
        reveal_strlit("Q6_K");
        assert("I32"@.len() != "Q6_K"@.len());
        reveal_strlit("IQ2_XXS");
        assert("I32"@.len() != "IQ2_XXS"@.len());
        reveal_strlit("IQ2_XS");
        assert("I32"@.len() != "IQ2_XS"@.len());
        reveal_strlit("IQ3_XXS");
        assert("I32"@.len() != "IQ3_XXS"@.len());
        reveal_strlit("IQ1_S");
        assert("I32"@.len() != "IQ1_S"@.len());
        reveal_strlit("IQ4_NL");
        assert("I32"@.len() != "IQ4_NL"@.len());
        reveal_strlit("IQ3_S");
        assert("I32"@.len() != "IQ3_S"@.len());
        reveal_strlit("IQ2_S");
        assert("I32"@.len() != "IQ2_S"@.len());
        reveal_strlit("IQ4_XS");
        assert("I32"@.len() != "IQ4_XS"@.len());
        reveal_strlit("I8");
        assert("I32"@.len() != "I8"@.len());
        reveal_strlit("I16");
        assert("I32"@[1] != "I16"@[1]);
        assert(ggml_code_of(quantization_spec(a)) == Some(a));
    }
    if a == 30 {
        reveal_strlit("I64");
        reveal_strlit("F32");
        assert("I64"@[0] != "F32"@[0]);
        reveal_strlit("F16");
        assert("I64"@[0] != "F16"@[0]);
        reveal_strlit("Q4_0");
        assert("I64"@.len() != "Q4_0"@.len());
        reveal_strlit("Q4_1");
        assert("I64"@.len() != "Q4_1"@.len());
        reveal_strlit("Q5_0");
        assert("I64"@.len() != "Q5_0"@.len());
        reveal_strlit("Q5_1");
        assert("I64"@.len() != "Q5_1"@.len());
        reveal_strlit("Q8_0");
        assert("I64"@.len() != "Q8_0"@.len());
        reveal_strlit("Q2_K");
        assert("I64"@.len() != "Q2_K"@.len());
        reveal_strlit("Q3_K_S");
        assert("I64"@.len() != "Q3_K_S"@.len());
        reveal_strlit("Q3_K_M");
        assert("I64"@.len() != "Q3_K_M"@.len());
        reveal_strlit("Q3_K_L");
        assert("I64"@.len() != "Q3_K_L"@.len());
        reveal_strlit("Q4_K_S");
        assert("I64"@.len() != "Q4_K_S"@.len());
        reveal_strlit("Q4_K_M");
        assert("I64"@.len() != "Q4_K_M"@.len());
        reveal_strlit("Q5_K_S");
        assert("I64"@.len() != "Q5_K_S"@.len());
        reveal_strlit("Q5_K_M");
        assert("I64"@.len() != "Q5_K_M"@.len());
        reveal_strlit("Q6_K");
        assert("I64"@.len() != "Q6_K"@.len());
        reveal_strlit("IQ2_XXS");
        assert("I64"@.len() != "IQ2_XXS"@.len());
        reveal_strlit("IQ2_XS");
        assert("I64"@.len() != "IQ2_XS"@.len());
        reveal_strlit("IQ3_XXS");
        assert("I64"@.len() != "IQ3_XXS"@.len());
        reveal_strlit("IQ1_S");
        assert("I64"@.len() != "IQ1_S"@.len());
        reveal_strlit("IQ4_NL");
        assert("I64"@.len() != "IQ4_NL"@.len());
        reveal_strlit("IQ3_S");
        assert("I64"@.len() != "IQ3_S"@.len());
        reveal_strlit("IQ2_S");
        assert("I64"@.len() != "IQ2_S"@.len());
        reveal_strlit("IQ4_XS");
        assert("I64"@.len() != "IQ4_XS"@.len());
        reveal_strlit("I8");
        assert("I64"@.len() != "I8"@.len());
        reveal_strlit("I16");
        assert("I64"@[1] != "I16"@[1]);
        reveal_strlit("I32");
        assert("I64"@[1] != "I32"@[1]);
        assert(ggml_code_of(quantization_spec(a)) == Some(a));
    }
    if a == 31 {
        reveal_strlit("F64");
        reveal_strlit("F32");
        assert("F64"@[1] != "F32"@[1]);
        reveal_strlit("F16");
        assert("F64"@[1] != "F16"@[1]);
        reveal_strlit("Q4_0");
        assert("F64"@.len() != "Q4_0"@.len());
        reveal_strlit("Q4_1");
        assert("F64"@.len() != "Q4_1"@.len());
        reveal_strlit("Q5_0");
        assert("F64"@.len() != "Q5_0"@.len());
        reveal_strlit("Q5_1");
        assert("F64"@.len() != "Q5_1"@.len());
        reveal_strlit("Q8_0");
        assert("F64"@.len() != "Q8_0"@.len());
        reveal_strlit("Q2_K");
        assert("F64"@.len() != "Q2_K"@.len());
        reveal_strlit("Q3_K_S");
        assert("F64"@.len() != "Q3_K_S"@.len());
        reveal_strlit("Q3_K_M");
        assert("F64"@.len() != "Q3_K_M"@.len());
        reveal_strlit("Q3_K_L");
        assert("F64"@.len() != "Q3_K_L"@.len());
        reveal_strlit("Q4_K_S");
        assert("F64"@.len() != "Q4_K_S"@.len());
        reveal_strlit("Q4_K_M");
        assert("F64"@.len() != "Q4_K_M"@.len());
        reveal_strlit("Q5_K_S");
        assert("F64"@.len() != "Q5_K_S"@.len());
        reveal_strlit("Q5_K_M");
        assert("F64"@.len() != "Q5_K_M"@.len());
        reveal_strlit("Q6_K");
        assert("F64"@.len() != "Q6_K"@.len());
        reveal_strlit("IQ2_XXS");
        assert("F64"@.len() != "IQ2_XXS"@.len());
        reveal_strlit("IQ2_XS");
        assert("F64"@.len() != "IQ2_XS"@.len());
        reveal_strlit("IQ3_XXS");
        assert("F64"@.len() != "IQ3_XXS"@.len());
        reveal_strlit("IQ1_S");
        assert("F64"@.len() != "IQ1_S"@.len());
        reveal_strlit("IQ4_NL");
        assert("F64"@.len() != "IQ4_NL"@.len());
        reveal_strlit("IQ3_S");
        assert("F64"@.len() != "IQ3_S"@.len());
        reveal_strlit("IQ2_S");
        assert("F64"@.len() != "IQ2_S"@.len());
        reveal_strlit("IQ4_XS");
        assert("F64"@.len() != "IQ4_XS"@.len());
        reveal_strlit("I8");
        assert("F64"@.len() != "I8"@.len());
        reveal_strlit("I16");
        assert("F64"@[0] != "I16"@[0]);
        reveal_strlit("I32");
        assert("F64"@[0] != "I32"@[0]);
        reveal_strlit("I64");
        assert("F64"@[0] != "I64"@[0]);
        assert(ggml_code_of(quantization_spec(a)) == Some(a));
    }
    if a == 32 {
        reveal_strlit("IQ1_M");
        reveal_strlit("F32");
        assert("IQ1_M"@.len() != "F32"@.len());
        reveal_strlit("F16");
        assert("IQ1_M"@.len() != "F16"@.len());
        reveal_strlit("Q4_0");
        assert("IQ1_M"@.len() != "Q4_0"@.len());
        reveal_strlit("Q4_1");
        assert("IQ1_M"@.len() != "Q4_1"@.len());
        reveal_strlit("Q5_0");
        assert("IQ1_M"@.len() != "Q5_0"@.len());
        reveal_strlit("Q5_1");
        assert("IQ1_M"@.len() != "Q5_1"@.len());
        reveal_strlit("Q8_0");
        assert("IQ1_M"@.len() != "Q8_0"@.len());
        reveal_strlit("Q2_K");
        assert("IQ1_M"@.len() != "Q2_K"@.len());
        reveal_strlit("Q3_K_S");
        assert("IQ1_M"@.len() != "Q3_K_S"@.len());
        reveal_strlit("Q3_K_M");
        assert("IQ1_M"@.len() != "Q3_K_M"@.len());
        reveal_strlit("Q3_K_L");
        assert("IQ1_M"@.len() != "Q3_K_L"@.len());
        reveal_strlit("Q4_K_S");
        assert("IQ1_M"@.len() != "Q4_K_S"@.len());
        reveal_strlit("Q4_K_M");
        assert("IQ1_M"@.len() != "Q4_K_M"@.len());
        reveal_strlit("Q5_K_S");
        assert("IQ1_M"@.len() != "Q5_K_S"@.len());
        reveal_strlit("Q5_K_M");
        assert("IQ1_M"@.len() != "Q5_K_M"@.len());
        reveal_strlit("Q6_K");
        assert("IQ1_M"@.len() != "Q6_K"@.len());
        reveal_strlit("IQ2_XXS");
        assert("IQ1_M"@.len() != "IQ2_XXS"@.len());
        reveal_strlit("IQ2_XS");
        assert("IQ1_M"@.len() != "IQ2_XS"@.len());
        reveal_strlit("IQ3_XXS");
        assert("IQ1_M"@.len() != "IQ3_XXS"@.len());
        reveal_strlit("IQ1_S");
        assert("IQ1_M"@[4] != "IQ1_S"@[4]);
        reveal_strlit("IQ4_NL");
        assert("IQ1_M"@.len() != "IQ4_NL"@.len());
        reveal_strlit("IQ3_S");
        assert("IQ1_M"@[2] != "IQ3_S"@[2]);
        reveal_strlit("IQ2_S");
        assert("IQ1_M"@[2] != "IQ2_S"@[2]);
        reveal_strlit("IQ4_XS");
        assert("IQ1_M"@.len() != "IQ4_XS"@.len());
        reveal_strlit("I8");
        assert("IQ1_M"@.len() != "I8"@.len());
        reveal_strlit("I16");
        assert("IQ1_M"@.len() != "I16"@.len());
        reveal_strlit("I32");
        assert("IQ1_M"@.len() != "I32"@.len());
        reveal_strlit("I64");
        assert("IQ1_M"@.len() != "I64"@.len());
        reveal_strlit("F64");
        assert("IQ1_M"@.len() != "F64"@.len());
        assert(ggml_code_of(quantization_spec(a)) == Some(a));
    }
    if a == 33 {
        reveal_strlit("BF16");
        reveal_strlit("F32");
        assert("BF16"@.len() != "F32"@.len());
        reveal_strlit("F16");
        assert("BF16"@.len() != "F16"@.len());
        reveal_strlit("Q4_0");
        assert("BF16"@[0] != "Q4_0"@[0]);
        reveal_strlit("Q4_1");
        assert("BF16"@[0] != "Q4_1"@[0]);
        reveal_strlit("Q5_0");
        assert("BF16"@[0] != "Q5_0"@[0]);
        reveal_strlit("Q5_1");
        assert("BF16"@[0] != "Q5_1"@[0]);
        reveal_strlit("Q8_0");
        assert("BF16"@[0] != "Q8_0"@[0]);
        reveal_strlit("Q2_K");
        assert("BF16"@[0] != "Q2_K"@[0]);
        reveal_strlit("Q3_K_S");
        assert("BF16"@.len() != "Q3_K_S"@.len());
        reveal_strlit("Q3_K_M");
        assert("BF16"@.len() != "Q3_K_M"@.len());
        reveal_strlit("Q3_K_L");
        assert("BF16"@.len() != "Q3_K_L"@.len());
        reveal_strlit("Q4_K_S");
        assert("BF16"@.len() != "Q4_K_S"@.len());
        reveal_strlit("Q4_K_M");
        assert("BF16"@.len() != "Q4_K_M"@.len());
        reveal_strlit("Q5_K_S");
        assert("BF16"@.len() != "Q5_K_S"@.len());
        reveal_strlit("Q5_K_M");
        assert("BF16"@.len() != "Q5_K_M"@.len());
        reveal_strlit("Q6_K");
        assert("BF16"@[0] != "Q6_K"@[0]);
        reveal_strlit("IQ2_XXS");
        assert("BF16"@.len() != "IQ2_XXS"@.len());
        reveal_strlit("IQ2_XS");
        assert("BF16"@.len() != "IQ2_XS"@.len());
        reveal_strlit("IQ3_XXS");
        assert("BF16"@.len() != "IQ3_XXS"@.len());
        reveal_strlit("IQ1_S");
        assert("BF16"@.len() != "IQ1_S"@.len());
        reveal_strlit("IQ4_NL");
        assert("BF16"@.len() != "IQ4_NL"@.len());
        reveal_strlit("IQ3_S");
        assert("BF16"@.len() != "IQ3_S"@.len());
        reveal_strlit("IQ2_S");
        assert("BF16"@.len() != "IQ2_S"@.len());
        reveal_strlit("IQ4_XS");
        assert("BF16"@.len() != "IQ4_XS"@.len());
        reveal_strlit("I8");
        assert("BF16"@.len() != "I8"@.len());
        reveal_strlit("I16");
        assert("BF16"@.len() != "I16"@.len());
        reveal_strlit("I32");
        assert("BF16"@.len() != "I32"@.len());
        reveal_strlit("I64");
        assert("BF16"@.len() != "I64"@.len());
        reveal_strlit("F64");
        assert("BF16"@.len() != "F64"@.len());
        reveal_strlit("IQ1_M");
        assert("BF16"@.len() != "IQ1_M"@.len());
        assert(ggml_code_of(quantization_spec(a)) == Some(a));
    }
    if a == 34 {
        reveal_strlit("TQ1_0");
        reveal_strlit("F32");
        assert("TQ1_0"@.len() != "F32"@.len());
        reveal_strlit("F16");
        assert("TQ1_0"@.len() != "F16"@.len());
        reveal_strlit("Q4_0");
        assert("TQ1_0"@.len() != "Q4_0"@.len());
        reveal_strlit("Q4_1");
        assert("TQ1_0"@.len() != "Q4_1"@.len());
        reveal_strlit("Q5_0");
        assert("TQ1_0"@.len() != "Q5_0"@.len());
        reveal_strlit("Q5_1");
        assert("TQ1_0"@.len() != "Q5_1"@.len());
        reveal_strlit("Q8_0");
        assert("TQ1_0"@.len() != "Q8_0"@.len());
        reveal_strlit("Q2_K");
        assert("TQ1_0"@.len() != "Q2_K"@.len());
        reveal_strlit("Q3_K_S");
        assert("TQ1_0"@.len() != "Q3_K_S"@.len());
        reveal_strlit("Q3_K_M");
        assert("TQ1_0"@.len() != "Q3_K_M"@.len());
        reveal_strlit("Q3_K_L");
        assert("TQ1_0"@.len() != "Q3_K_L"@.len());
        reveal_strlit("Q4_K_S");
        assert("TQ1_0"@.len() != "Q4_K_S"@.len());
        reveal_strlit("Q4_K_M");
        assert("TQ1_0"@.len() != "Q4_K_M"@.len());
        reveal_strlit("Q5_K_S");
        assert("TQ1_0"@.len() != "Q5_K_S"@.len());
        reveal_strlit("Q5_K_M");
        assert("TQ1_0"@.len() != "Q5_K_M"@.len());
        reveal_strlit("Q6_K");
        assert("TQ1_0"@.len() != "Q6_K"@.len());
        reveal_strlit("IQ2_XXS");
        assert("TQ1_0"@.len() != "IQ2_XXS"@.len());
        reveal_strlit("IQ2_XS");
        assert("TQ1_0"@.len() != "IQ2_XS"@.len());
        reveal_strlit("IQ3_XXS");
        assert("TQ1_0"@.len() != "IQ3_XXS"@.len());
        reveal_strlit("IQ1_S");
        assert("TQ1_0"@[0] != "IQ1_S"@[0]);
        reveal_strlit("IQ4_NL");
        assert("TQ1_0"@.len() != "IQ4_NL"@.len());
        reveal_strlit("IQ3_S");
        assert("TQ1_0"@[0] != "IQ3_S"@[0]);
        reveal_strlit("IQ2_S");
        assert("TQ1_0"@[0] != "IQ2_S"@[0]);
        reveal_strlit("IQ4_XS");
        assert("TQ1_0"@.len() != "IQ4_XS"@.len());
        reveal_strlit("I8");
        assert("TQ1_0"@.len() != "I8"@.len());
        reveal_strlit("I16");
        assert("TQ1_0"@.len() != "I16"@.len());
        reveal_strlit("I32");
        assert("TQ1_0"@.len() != "I32"@.len());
        reveal_strlit("I64");
        assert("TQ1_0"@.len() != "I64"@.len());
        reveal_strlit("F64");
        assert("TQ1_0"@.len() != "F64"@.len());
        reveal_strlit("IQ1_M");
        assert("TQ1_0"@[0] != "IQ1_M"@[0]);
        reveal_strlit("BF16");
        assert("TQ1_0"@.len() != "BF16"@.len());
        assert(ggml_code_of(quantization_spec(a)) == Some(a));
    }
    if a == 35 {
        reveal_strlit("TQ2_0");
        reveal_strlit("F32");
        assert("TQ2_0"@.len() != "F32"@.len());
        reveal_strlit("F16");
        assert("TQ2_0"@.len() != "F16"@.len());
        reveal_strlit("Q4_0");
        assert("TQ2_0"@.len() != "Q4_0"@.len());
        reveal_strlit("Q4_1");
        assert("TQ2_0"@.len() != "Q4_1"@.len());
        reveal_strlit("Q5_0");
        assert("TQ2_0"@.len() != "Q5_0"@.len());
        reveal_strlit("Q5_1");
        assert("TQ2_0"@.len() != "Q5_1"@.len());
        reveal_strlit("Q8_0");
        assert("TQ2_0"@.len() != "Q8_0"@.len());
        reveal_strlit("Q2_K");
        assert("TQ2_0"@.len() != "Q2_K"@.len());
        reveal_strlit("Q3_K_S");
        assert("TQ2_0"@.len() != "Q3_K_S"@.len());
        reveal_strlit("Q3_K_M");
        assert("TQ2_0"@.len() != "Q3_K_M"@.len());
        reveal_strlit("Q3_K_L");
        assert("TQ2_0"@.len() != "Q3_K_L"@.len());
        reveal_strlit("Q4_K_S");
        assert("TQ2_0"@.len() != "Q4_K_S"@.len());
        reveal_strlit("Q4_K_M");
        assert("TQ2_0"@.len() != "Q4_K_M"@.len());
        reveal_strlit("Q5_K_S");
        assert("TQ2_0"@.len() != "Q5_K_S"@.len());
        reveal_strlit("Q5_K_M");
        assert("TQ2_0"@.len() != "Q5_K_M"@.len());
        reveal_strlit("Q6_K");
        assert("TQ2_0"@.len() != "Q6_K"@.len());
        reveal_strlit("IQ2_XXS");
        assert("TQ2_0"@.len() != "IQ2_XXS"@.len());
        reveal_strlit("IQ2_XS");
        assert("TQ2_0"@.len() != "IQ2_XS"@.len());
        reveal_strlit("IQ3_XXS");
        assert("TQ2_0"@.len() != "IQ3_XXS"@.len());
        reveal_strlit("IQ1_S");
        assert("TQ2_0"@[0] != "IQ1_S"@[0]);
        reveal_strlit("IQ4_NL");
        assert("TQ2_0"@.len() != "IQ4_NL"@.len());
        reveal_strlit("IQ3_S");
        assert("TQ2_0"@[0] != "IQ3_S"@[0]);
        reveal_strlit("IQ2_S");
        assert("TQ2_0"@[0] != "IQ2_S"@[0]);
        reveal_strlit("IQ4_XS");
        assert("TQ2_0"@.len() != "IQ4_XS"@.len());
        reveal_strlit("I8");
        assert("TQ2_0"@.len() != "I8"@.len());
        reveal_strlit("I16");
        assert("TQ2_0"@.len() != "I16"@.len());
        reveal_strlit("I32");
        assert("TQ2_0"@.len() != "I32"@.len());
        reveal_strlit("I64");
        assert("TQ2_0"@.len() != "I64"@.len());
        reveal_strlit("F64");
        assert("TQ2_0"@.len() != "F64"@.len());
        reveal_strlit("IQ1_M");
        assert("TQ2_0"@[0] != "IQ1_M"@[0]);
        reveal_strlit("BF16");
        assert("TQ2_0"@.len() != "BF16"@.len());
        reveal_strlit("TQ1_0");
        assert("TQ2_0"@[2] != "TQ1_0"@[2]);
        assert(ggml_code_of(quantization_spec(a)) == Some(a));
    }
    if a == 36 {
        reveal_strlit("MXFP4");
        reveal_strlit("F32");
        assert("MXFP4"@.len() != "F32"@.len());
        reveal_strlit("F16");
        assert("MXFP4"@.len() != "F16"@.len());
        reveal_strlit("Q4_0");
        assert("MXFP4"@.len() != "Q4_0"@.len());
        reveal_strlit("Q4_1");
        assert("MXFP4"@.len() != "Q4_1"@.len());
        reveal_strlit("Q5_0");
        assert("MXFP4"@.len() != "Q5_0"@.len());
        reveal_strlit("Q5_1");
        assert("MXFP4"@.len() != "Q5_1"@.len());
        reveal_strlit("Q8_0");
        assert("MXFP4"@.len() != "Q8_0"@.len());
        reveal_strlit("Q2_K");
        assert("MXFP4"@.len() != "Q2_K"@.len());
        reveal_strlit("Q3_K_S");
        assert("MXFP4"@.len() != "Q3_K_S"@.len());
        reveal_strlit("Q3_K_M");
        assert("MXFP4"@.len() != "Q3_K_M"@.len());
        reveal_strlit("Q3_K_L");
        assert("MXFP4"@.len() != "Q3_K_L"@.len());
        reveal_strlit("Q4_K_S");
        assert("MXFP4"@.len() != "Q4_K_S"@.len());
        reveal_strlit("Q4_K_M");
        assert("MXFP4"@.len() != "Q4_K_M"@.len());
        reveal_strlit("Q5_K_S");
        assert("MXFP4"@.len() != "Q5_K_S"@.len());
        reveal_strlit("Q5_K_M");
        assert("MXFP4"@.len() != "Q5_K_M"@.len());
        reveal_strlit("Q6_K");
        assert("MXFP4"@.len() != "Q6_K"@.len());
        reveal_strlit("IQ2_XXS");
        assert("MXFP4"@.len() != "IQ2_XXS"@.len());
        reveal_strlit("IQ2_XS");
        assert("MXFP4"@.len() != "IQ2_XS"@.len());
        reveal_strlit("IQ3_XXS");
        assert("MXFP4"@.len() != "IQ3_XXS"@.len());
        reveal_strlit("IQ1_S");
        assert("MXFP4"@[0] != "IQ1_S"@[0]);
        reveal_strlit("IQ4_NL");
        assert("MXFP4"@.len() != "IQ4_NL"@.len());
        reveal_strlit("IQ3_S");
        assert("MXFP4"@[0] != "IQ3_S"@[0]);
        reveal_strlit("IQ2_S");
        assert("MXFP4"@[0] != "IQ2_S"@[0]);
        reveal_strlit("IQ4_XS");
        assert("MXFP4"@.len() != "IQ4_XS"@.len());
        reveal_strlit("I8");
        assert("MXFP4"@.len() != "I8"@.len());
        reveal_strlit("I16");
        assert("MXFP4"@.len() != "I16"@.len());
        reveal_strlit("I32");
        assert("MXFP4"@.len() != "I32"@.len());
        reveal_strlit("I64");
        assert("MXFP4"@.len() != "I64"@.len());
        reveal_strlit("F64");
        assert("MXFP4"@.len() != "F64"@.len());
        reveal_strlit("IQ1_M");
        assert("MXFP4"@[0] != "IQ1_M"@[0]);
        reveal_strlit("BF16");
        assert("MXFP4"@.len() != "BF16"@.len());
        reveal_strlit("TQ1_0");
        assert("MXFP4"@[0] != "TQ1_0"@[0]);
        reveal_strlit("TQ2_0");
        assert("MXFP4"@[0] != "TQ2_0"@[0]);
        assert(ggml_code_of(quantization_spec(a)) == Some(a));
    }
}

/// Different file type codes get different names, so a name identifies its code.
pub proof fn law_quantization_names_are_distinct(a: u32, b: u32)
    requires
        a != b,
    ensures
        quantization_spec(a) != quantization_spec(b),
{
    reveal_strlit("F32");
    reveal_strlit("F16");
    reveal_strlit("Q4_0");
    reveal_strlit("Q4_1");
    reveal_strlit("Q5_0");
    reveal_strlit("Q5_1");
    reveal_strlit("Q8_0");
    reveal_strlit("Q2_K");
    reveal_strlit("Q3_K_S");
    reveal_strlit("Q3_K_M");
    reveal_strlit("Q3_K_L");
    reveal_strlit("Q4_K_S");
    reveal_strlit("Q4_K_M");
    reveal_strlit("Q5_K_S");
    reveal_strlit("Q5_K_M");
    reveal_strlit("Q6_K");
    reveal_strlit("IQ2_XXS");
    reveal_strlit("IQ2_XS");
    reveal_strlit("IQ3_XXS");
    reveal_strlit("IQ1_S");
    reveal_strlit("IQ4_NL");
    reveal_strlit("IQ3_S");
    reveal_strlit("IQ2_S");
    reveal_strlit("IQ4_XS");
    reveal_strlit("I8");
    reveal_strlit("I16");
    reveal_strlit("I32");
    reveal_strlit("I64");
    reveal_strlit("F64");
    reveal_strlit("IQ1_M");
    reveal_strlit("BF16");
    reveal_strlit("TQ1_0");
    reveal_strlit("TQ2_0");
    reveal_strlit("MXFP4");
    reveal_strlit("GGML type ");
    if ggml_named_code(a) && ggml_named_code(b) {
        lemma_named_code_round_trip(a);
        lemma_named_code_round_trip(b);
    } else if !ggml_named_code(a) && !ggml_named_code(b) {
        lemma_decimal_chars_value(a as nat);
        lemma_decimal_chars_value(b as nat);
        if quantization_spec(a) == quantization_spec(b) {
            assert(("GGML type "@ + decimal_chars(a as nat)).subrange(10, quantization_spec(a).len() as int) =~= decimal_chars(a as nat));
            assert(("GGML type "@ + decimal_chars(b as nat)).subrange(10, quantization_spec(b).len() as int) =~= decimal_chars(b as nat));
            assert(false);
        }
    } else if !ggml_named_code(a) {
        assert(quantization_spec(a)[0] == 'G');
        assert(quantization_spec(b)[0] != 'G');
    } else if !ggml_named_code(b) {
        assert(quantization_spec(b)[0] == 'G');
        assert(quantization_spec(a)[0] != 'G');
    }
}

} // verus!
