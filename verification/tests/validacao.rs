use fundamentos::validacao::calcular_digito_cpf;
use fundamentos::validacao::calcular_forca_senha;
use fundamentos::validacao::cpf_tem_digitos_repetidos;
use fundamentos::validacao::descricao_forca;
use fundamentos::validacao::limpar_cpf;
use fundamentos::validacao::validar_cpf;
use fundamentos::validacao::validar_email;
use fundamentos::validacao::validar_senha;

#[test]
fn test_validar_cpf_valido() {
    assert!(validar_cpf("111.444.777-35").0);
    assert!(validar_cpf("11144477735").0);
}

#[test]
fn test_validar_cpf_invalido() {
    assert!(!validar_cpf("111.111.111-11").0);
    assert!(!validar_cpf("123.456.789-00").0);
    assert!(!validar_cpf("123").0);
}

#[test]
fn test_validar_email_valido() {
    assert!(validar_email("teste@exemplo.com").0);
    assert!(validar_email("usuario.nome@dominio.com.br").0);
}

#[test]
fn test_validar_email_invalido() {
    assert!(!validar_email("semArroba.com").0);
    assert!(!validar_email("@semUsuario.com").0);
    assert!(!validar_email("semDominio@").0);
    assert!(!validar_email("sem.ponto@dominio").0);
}

#[test]
fn test_validar_senha() {
    assert!(validar_senha("SenhaForte123!").0);
    assert!(!validar_senha("fraca").0);
    assert!(!validar_senha("SemNumero!").0);
    assert!(!validar_senha("semnumero123!").0);
}

#[test]
fn test_forca_senha() {
    assert_eq!(calcular_forca_senha("123"), 1);
    assert_eq!(calcular_forca_senha("Senha123!"), 5);
    assert_eq!(calcular_forca_senha("SenhaFraca"), 3);
}

#[test]
fn limpar_cpf_guarda_somente_os_digitos() {
    assert_eq!(limpar_cpf("111.444.777-35"), "11144477735");
    assert_eq!(limpar_cpf("abc"), "");
    assert_eq!(limpar_cpf(""), "");
}

#[test]
fn cpf_repetido_e_reconhecido() {
    assert!(cpf_tem_digitos_repetidos("11111111111"));
    assert!(!cpf_tem_digitos_repetidos("11144477735"));
}

#[test]
fn calcular_digito_cpf_confere_com_o_exemplo() {
    let digitos = [1u32, 1, 1, 4, 4, 4, 7, 7, 7];
    let multiplicadores = [10u32, 9, 8, 7, 6, 5, 4, 3, 2];
    assert_eq!(calcular_digito_cpf(&digitos, &multiplicadores), 3);
    let digitos2 = [1u32, 1, 1, 4, 4, 4, 7, 7, 7, 3];
    let multiplicadores2 = [11u32, 10, 9, 8, 7, 6, 5, 4, 3, 2];
    assert_eq!(calcular_digito_cpf(&digitos2, &multiplicadores2), 5);
}

#[test]
fn mensagens_de_cpf_dizem_o_motivo() {
    assert_eq!(validar_cpf("123").1, "CPF deve ter 11 dígitos");
    assert_eq!(validar_cpf("111.111.111-11").1, "CPF não pode ser sequência repetida");
    assert_eq!(validar_cpf("111.444.777-45").1, "Primeiro dígito verificador inválido");
    assert_eq!(validar_cpf("111.444.777-36").1, "Segundo dígito verificador inválido");
    assert_eq!(validar_cpf("111.444.777-35").1, "✅ CPF válido!");
}

#[test]
fn mensagens_de_email_dizem_o_motivo() {
    assert_eq!(validar_email("   ").1, "Email não pode estar vazio");
    assert_eq!(validar_email("a@b@c.com").1, "Email deve conter exatamente um @");
    assert_eq!(validar_email("@semUsuario.com").1, "Usuário não pode estar vazio");
    assert_eq!(validar_email("semDominio@").1, "Domínio não pode estar vazio");
    assert_eq!(validar_email("sem.ponto@dominio").1, "Domínio deve conter pelo menos um ponto");
    assert_eq!(
        validar_email("usuario@.dominio.com").1,
        "Domínio não pode começar ou terminar com ponto"
    );
    assert_eq!(
        validar_email("usuario@dominio.com.").1,
        "Domínio não pode começar ou terminar com ponto"
    );
    assert_eq!(validar_email("us er@dominio.com").1, "Usuário contém caracteres inválidos");
    assert_eq!(validar_email("  teste@exemplo.com  ").1, "✅ Email válido!");
}

#[test]
fn problemas_de_senha_saem_na_ordem() {
    let (valida, problemas) = validar_senha("fraca");
    assert!(!valida);
    assert_eq!(
        problemas,
        vec![
            "❌ Mínimo 8 caracteres".to_string(),
            "❌ Pelo menos uma letra MAIÚSCULA".to_string(),
            "❌ Pelo menos um número".to_string(),
            "❌ Pelo menos um caractere especial (!@#$%...)".to_string(),
        ]
    );
    let (valida, problemas) = validar_senha("SenhaForte123!");
    assert!(valida);
    assert!(problemas.is_empty());
}

#[test]
fn descricao_de_forca_cobre_todas_as_faixas() {
    assert_eq!(descricao_forca(0), "Muito Fraca 😱");
    assert_eq!(descricao_forca(1), "Muito Fraca 😱");
    assert_eq!(descricao_forca(2), "Fraca 😟");
    assert_eq!(descricao_forca(3), "Razoável 😐");
    assert_eq!(descricao_forca(4), "Forte 😊");
    assert_eq!(descricao_forca(5), "Muito Forte 💪");
    assert_eq!(descricao_forca(6), "Desconhecida");
}
