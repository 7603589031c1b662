use fundamentos::cadastro::validar_email;
use fundamentos::cadastro::Usuario;
use fundamentos::historico::Historico;
use fundamentos::notas::classificar_nota;
use fundamentos::temperatura::EscalaTemperatura;
use fundamentos::texto::aparar;
use fundamentos::texto::capitalizar;

#[test]
fn aparar_remove_espacos_das_pontas() {
    assert_eq!(aparar("  ola  "), "ola");
    assert_eq!(aparar("ola"), "ola");
    assert_eq!(aparar("   "), "");
    assert_eq!(aparar(""), "");
    assert_eq!(aparar(" a b "), "a b");
}

#[test]
fn capitalizar_poe_cada_palavra_na_forma_de_nome() {
    assert_eq!(capitalizar("bianeck bona"), "Bianeck Bona");
    assert_eq!(capitalizar("  MARIA   da  SILVA  "), "Maria Da Silva");
    assert_eq!(capitalizar(""), "");
    assert_eq!(capitalizar("   "), "");
    assert_eq!(capitalizar("ana"), "Ana");
}

#[test]
fn usuario_novo_normaliza_nome_e_email() {
    let usuario = Usuario::novo(
        "bianeck bona".to_string(),
        "Bianeck@Exemplo.COM".to_string(),
        30,
    );
    assert_eq!(usuario.nome, "Bianeck Bona");
    assert_eq!(usuario.email, "bianeck@exemplo.com");
    assert_eq!(usuario.idade, 30);
}

#[test]
fn validacao_simples_de_email_olha_arroba_e_ponto() {
    assert!(validar_email("a@b.com"));
    assert!(!validar_email(""));
    assert!(!validar_email("sem-arroba.com"));
    assert!(!validar_email("sem-ponto@com"));
    assert!(!validar_email("ponto.antes@doarroba"));
}

#[test]
fn classificar_nota_cobre_todas_as_faixas() {
    assert_eq!(classificar_nota(95), "A");
    assert_eq!(classificar_nota(90), "A");
    assert_eq!(classificar_nota(85), "B");
    assert_eq!(classificar_nota(75), "C");
    assert_eq!(classificar_nota(65), "D");
    assert_eq!(classificar_nota(0), "F");
    assert_eq!(classificar_nota(59), "F");
    assert_eq!(classificar_nota(101), "Inválida");
    assert_eq!(classificar_nota(-1), "Inválida");
}

#[test]
fn historico_guarda_e_limpa_operacoes() {
    let mut historico = Historico::novo();
    assert_eq!(historico.quantidade(), 0);
    historico.adicionar("2 + 2 = 4".to_string());
    historico.adicionar("10 / 2 = 5".to_string());
    assert_eq!(historico.quantidade(), 2);
    assert_eq!(historico.item(0), "2 + 2 = 4");
    assert_eq!(historico.item(1), "10 / 2 = 5");
    historico.limpar();
    assert_eq!(historico.quantidade(), 0);
}

#[test]
fn escala_de_temperatura_tem_descricao_com_simbolo() {
    assert_eq!(EscalaTemperatura::Celsius.descricao(), "Celsius (°C)");
    assert_eq!(EscalaTemperatura::Fahrenheit.descricao(), "Fahrenheit (°F)");
    assert_eq!(EscalaTemperatura::Kelvin.descricao(), "Kelvin (K)");
    assert_eq!(EscalaTemperatura::Celsius, EscalaTemperatura::Celsius);
    assert!(EscalaTemperatura::Celsius != EscalaTemperatura::Kelvin);
}
