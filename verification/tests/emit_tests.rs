use halgen::classify::classify;
use halgen::decl::{Argument, FunctionDecl, StructDecl};
use halgen::emit::{emit_class, generate};

fn arg(name: &str, type_text: &str) -> Argument {
    Argument {
        name: Some(name.to_string()),
        type_text: type_text.to_string(),
        pretty_text: format!("{type_text} {name}"),
    }
}

fn fd(name: &str, args: Vec<Argument>, ret: &str) -> FunctionDecl {
    FunctionDecl {
        name: name.to_string(),
        arguments: args,
        return_type_text: Some(ret.to_string()),
    }
}

#[test]
fn end_to_end_hal_uart_unit() {
    let c = classify("stm32f4xx_hal_uart.c").unwrap();
    let structs = vec![StructDecl { name: "UART_HandleTypeDef".to_string() }];
    let functions = vec![fd(
        "HAL_UART_Transmit",
        vec![
            arg("huart", "UART_HandleTypeDef *"),
            arg("pData", "uint8_t *"),
            arg("Size", "uint16_t"),
            arg("Timeout", "uint32_t"),
        ],
        "HAL_StatusTypeDef",
    )];
    let code = generate(&c, &structs, &functions);
    let expected = "#pragma once\n\
                    #include \"stm32f4xx_hal_uart.h\"\n\
                    namespace hal {\n\
                    class Uart {\n\
                    public:\n\
                    UART_HandleTypeDef * handle;\n\
                    Uart(UART_HandleTypeDef * _handle) : handle(_handle) {}\n\
                    \tinline HAL_StatusTypeDef transmit(uint8_t * pData, uint16_t Size, uint32_t Timeout) { return HAL_UART_Transmit(this->handle, pData, Size, Timeout); }\n\
                    };\n\
                    };\n";
    assert_eq!(code, expected);
}

#[test]
fn static_namespace_when_no_handle_resolves() {
    let c = classify("stm32f4xx_ll_rcc.h").unwrap();
    let functions = vec![fd("LL_RCC_GetSysClk", Vec::new(), "uint32_t")];
    let code = generate(&c, &Vec::new(), &functions);
    let expected = "#pragma once\n\
                    #include \"stm32f4xx_ll_rcc.h\"\n\
                    namespace ll {\n\
                    namespace Rcc {\n\
                    \tstatic inline uint32_t get_sys_clk() { return LL_RCC_GetSysClk(); }\n\
                    };\n\
                    };\n";
    assert_eq!(code, expected);
}

#[test]
fn candidates_render_in_reverse_declaration_order() {
    let c = classify("stm32f4xx_hal_uart.c").unwrap();
    let structs = vec![StructDecl { name: "UART_HandleTypeDef".to_string() }];
    let functions = vec![
        fd("HAL_UART_Abort", vec![arg("huart", "UART_HandleTypeDef *")], "void"),
        fd("HAL_UART_Pause", vec![arg("huart", "UART_HandleTypeDef *")], "void"),
    ];
    let code = generate(&c, &structs, &functions);
    let pause = code.find("pause()").unwrap();
    let abort = code.find("abort()").unwrap();
    assert!(pause < abort);
}

#[test]
fn hooks_and_foreign_prefixes_are_not_wrapped() {
    let c = classify("stm32f4xx_hal_uart.c").unwrap();
    let structs = vec![StructDecl { name: "UART_HandleTypeDef".to_string() }];
    let functions = vec![
        fd("HAL_UART_IRQHandler", vec![arg("huart", "UART_HandleTypeDef *")], "void"),
        fd("HAL_UART_TxCpltCallback", vec![arg("huart", "UART_HandleTypeDef *")], "void"),
        fd("LL_UART_Enable", vec![arg("huart", "UART_HandleTypeDef *")], "void"),
        fd("HAL_UART_Abort", vec![arg("huart", "UART_HandleTypeDef *")], "void"),
    ];
    let code = generate(&c, &structs, &functions);
    assert!(!code.contains("IRQHandler"));
    assert!(!code.contains("Callback"));
    assert!(!code.contains("LL_UART_Enable"));
    assert!(code.contains("HAL_UART_Abort"));
}

#[test]
fn one_class_per_resolved_handle() {
    let c = classify("stm32f4xx_hal_uart.c").unwrap();
    let structs = vec![
        StructDecl { name: "UART_HandleTypeDef".to_string() },
        StructDecl { name: "LPUART_HandleTypeDef".to_string() },
    ];
    let code = generate(&c, &structs, &Vec::new());
    assert!(code.contains("class Uart {"));
    assert!(code.contains("class Lpuart {"));
}

#[test]
fn handle_name_without_separator_renders_nothing() {
    let cands: Vec<&FunctionDecl> = Vec::new();
    assert_eq!(emit_class("NoSeparator", &cands, "uart"), "");
}
